//! The transport-agnostic kinds of transfer.

use vstd::prelude::*;

verus! {

/// Protocol-level transfer types.
#[derive(Copy, Clone, Debug, Ord, PartialOrd, Eq, PartialEq, Structural)]
pub enum TransferKind {
    Message,
    Response,
    Request,
}

} // verus!
