//! How the status of a transaction is spelled in answers to clients.

use vstd::prelude::*;
use crate::felt::{felt_from_u64, Felt};

verus! {

/// The status of a transaction.
#[derive(Clone, Copy, Debug, PartialEq, Eq, Structural, Hash)]
pub enum TxnStatus {
    Received,
    Rejected,
    AcceptedOnL2,
    AcceptedOnL1,
}

/// How the execution of a transaction ended.
#[derive(Clone, Copy, Debug, PartialEq, Eq, Structural, Hash)]
pub enum TxnExecutionStatus {
    Succeeded,
    Reverted,
}

/// How final a transaction is.
#[derive(Clone, Copy, Debug, PartialEq, Eq, Structural, Hash)]
pub enum TxnFinalityStatus {
    AcceptedOnL2,
    AcceptedOnL1,
}

/// How the execution of a transaction ended, as a receipt records it.
#[derive(Clone, Debug, PartialEq, Eq)]
pub enum ExecutionStatus {
    Succeeded,
    Reverted { reason: String },
}

impl TxnStatus {
    /// The spelling as a mathematical value.
    pub open spec fn spec_serialize(&self) -> Seq<char> {
        match *self {
            TxnStatus::Received => "RECEIVED"@,
            TxnStatus::Rejected => "REJECTED"@,
            TxnStatus::AcceptedOnL2 => "ACCEPTED_ON_L2"@,
            TxnStatus::AcceptedOnL1 => "ACCEPTED_ON_L1"@,
        }
    }

    /// The spelling of the status.
    pub fn serialize(&self) -> (r: &'static str)
        ensures
            r@ == self.spec_serialize(),
    {
        match self {
            TxnStatus::Received => "RECEIVED",
            TxnStatus::Rejected => "REJECTED",
            TxnStatus::AcceptedOnL2 => "ACCEPTED_ON_L2",
            TxnStatus::AcceptedOnL1 => "ACCEPTED_ON_L1",
        }
    }
}

impl TxnExecutionStatus {
    /// The spelling as a mathematical value.
    pub open spec fn spec_serialize(&self) -> Seq<char> {
        match *self {
            TxnExecutionStatus::Succeeded => "SUCCEEDED"@,
            TxnExecutionStatus::Reverted => "REVERTED"@,
        }
    }

    /// The spelling of the status.
    pub fn serialize(&self) -> (r: &'static str)
        ensures
            r@ == self.spec_serialize(),
    {
        match self {
            TxnExecutionStatus::Succeeded => "SUCCEEDED",
            TxnExecutionStatus::Reverted => "REVERTED",
        }
    }

    /// The status without the reason of a revert.
    pub open spec fn spec_from(value: &ExecutionStatus) -> TxnExecutionStatus {
        match *value {
            ExecutionStatus::Succeeded => TxnExecutionStatus::Succeeded,
            ExecutionStatus::Reverted { .. } => TxnExecutionStatus::Reverted,
        }
    }
}

impl<'a> From<&'a ExecutionStatus> for TxnExecutionStatus {
    /// The status without the reason of a revert.
    fn from(value: &'a ExecutionStatus) -> (r: TxnExecutionStatus) {
        match value {
            ExecutionStatus::Succeeded => TxnExecutionStatus::Succeeded,
            ExecutionStatus::Reverted { .. } => TxnExecutionStatus::Reverted,
        }
    }
}

impl<'a> vstd::std_specs::convert::FromSpecImpl<&'a ExecutionStatus> for TxnExecutionStatus {
    open spec fn obeys_from_spec() -> bool {
        true
    }

    open spec fn from_spec(value: &'a ExecutionStatus) -> TxnExecutionStatus {
        TxnExecutionStatus::spec_from(value)
    }
}

impl TxnFinalityStatus {
    /// The spelling as a mathematical value.
    pub open spec fn spec_serialize(&self) -> Seq<char> {
        match *self {
            TxnFinalityStatus::AcceptedOnL2 => "ACCEPTED_ON_L2"@,
            TxnFinalityStatus::AcceptedOnL1 => "ACCEPTED_ON_L1"@,
        }
    }

    /// The spelling of the status.
    pub fn serialize(&self) -> (r: &'static str)
        ensures
            r@ == self.spec_serialize(),
    {
        match self {
            TxnFinalityStatus::AcceptedOnL2 => "ACCEPTED_ON_L2",
            TxnFinalityStatus::AcceptedOnL1 => "ACCEPTED_ON_L1",
        }
    }
}

/// The version of a transaction.
#[derive(Clone, Copy, Debug, PartialEq, Eq, Hash)]
pub struct TransactionVersion(pub Felt);

/// The unit that the fee of a transaction is paid in.
#[derive(Clone, Copy, Debug)]
pub struct PriceUnit<'a>(pub &'a TransactionVersion);

impl<'a> PriceUnit<'a> {
    /// The spelling as a mathematical value.
    pub open spec fn spec_serialize(&self) -> Seq<char> {
        let version = self.0.0@;
        if version == felt_from_u64(0) || version == felt_from_u64(1) || version == felt_from_u64(
            2,
        ) {
            "WEI"@
        } else {
            "FRI"@
        }
    }

    /// The spelling of the unit: transactions of the versions 0, 1 and 2
    /// pay in `WEI`, all others in `FRI`.
    pub fn serialize(&self) -> (r: &'static str)
        ensures
            r@ == self.spec_serialize(),
    {
        let version = self.0.0;
        if version == Felt::from_u64(0) || version == Felt::from_u64(1) || version
            == Felt::from_u64(2) {
            "WEI"
        } else {
            "FRI"
        }
    }
}

} // verus!
