//! What the block codec and validator report for one stored block: the value
//! the verifier consumes for every block it visits.

use vstd::prelude::*;
use crate::hash::HeaderHash;

verus! {

/// Outcome of decoding and validating the bytes stored under one key.
///
/// The codec that produces this value is an external collaborator; the
/// verifier only consumes its verdict. A block that cannot be parsed at all is
/// `Malformed`; one that parses carries its own header hash, the validator's
/// verdict, and its predecessor link (`None` marks a root block).
#[derive(Debug)]
pub enum BlockSummary {
    /// The stored bytes cannot be decoded.
    Malformed,
    /// The stored bytes decode to a block.
    Decoded {
        /// Whether the block passed structural and cryptographic validation.
        valid: bool,
        /// The decoded block's own header hash.
        hash: HeaderHash,
        /// The predecessor's header hash; `None` for a root block.
        prev: Option<HeaderHash>,
    },
}

/// Mathematical image of a `BlockSummary`, with hashes as byte sequences.
pub enum SummaryView {
    Malformed,
    Decoded { valid: bool, hash: Seq<u8>, prev: Option<Seq<u8>> },
}

/// Mathematical image of an optional predecessor link.
pub open spec fn link_view(p: Option<HeaderHash>) -> Option<Seq<u8>> {
    match p {
        Option::None => Option::None,
        Option::Some(h) => Option::Some(h@),
    }
}

impl View for BlockSummary {
    type V = SummaryView;

    open spec fn view(&self) -> SummaryView {
        match self {
            BlockSummary::Malformed => SummaryView::Malformed,
            BlockSummary::Decoded { valid, hash, prev } => SummaryView::Decoded {
                valid: *valid,
                hash: hash@,
                prev: link_view(*prev),
            },
        }
    }
}

} // verus!
