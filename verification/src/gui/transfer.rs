//! Outcomes of pane-to-pane transfers.

use vstd::prelude::*;

verus! {

broadcast use vstd::string::group_string_axioms;

/// Outcome of a pane-to-pane transfer.
#[derive(Debug, Clone)]
pub enum TransferOutcome {
    CopiedFromKindle { title: String },
    AddedToKindle { title: String },
}

/// The status-bar summary of a transfer.
pub open spec fn spec_summary(outcome: TransferOutcome) -> Seq<char> {
    match outcome {
        TransferOutcome::CopiedFromKindle { title } => "Copied '"@ + title@
            + "' to the local library."@,
        TransferOutcome::AddedToKindle { title } => "Sent '"@ + title@ + "' to the Kindle."@,
    }
}

impl TransferOutcome {
    /// The status-bar summary of the transfer.
    pub fn summary(&self) -> (res: String)
        ensures
            res@ == spec_summary(*self),
    {
        match self {
            TransferOutcome::CopiedFromKindle { title } => "Copied '".to_owned().concat(
                title.as_str(),
            ).concat("' to the local library."),
            TransferOutcome::AddedToKindle { title } => "Sent '".to_owned().concat(
                title.as_str(),
            ).concat("' to the Kindle."),
        }
    }
}

} // verus!
