//! Error taxonomy of the ledger layer: one tagged case per failure kind, each
//! carrying the structured context an operator needs (the offending hash, the
//! expected and actual anchors, the invalid-block count).

use vstd::prelude::*;
use vstd::string::StringExecFns;
use crate::hash::HeaderHash;
use crate::render::{decimal_of, decimal_string, hex_of, hex_string};

verus! {

/// Failure kinds of the ledger layer.
///
/// Storage-access failures (`IoError`, `NewCannotInitializeBlockchainDirectory`,
/// `ListPermissionsDenied`) are raised by the unverified storage adapters
/// around this library; the remaining cases are produced here.
#[derive(Debug)]
pub enum Error {
    /// Underlying storage access failed.
    IoError,
    /// The directory of a new ledger could not be initialised.
    NewCannotInitializeBlockchainDirectory,
    /// No local ledger exists yet.
    ListNoBlockchains,
    /// Enumerating the local ledgers was not permitted.
    ListPermissionsDenied,
    /// A catalog entry is not a valid ledger name; carries the raw entry.
    ListBlockchainInvalidName(String),
    /// The forward target is absent from the block store.
    ForwardHashDoesNotExist(HeaderHash),
    /// The requested block is absent from the block store.
    GetBlockDoesNotExist(HeaderHash),
    /// The requested block is present but cannot be read back.
    GetInvalidBLock(HeaderHash),
    /// A block displayed from the store failed to decode.
    CatMalformedBlock(HeaderHash),
    /// A block decoded but failed structural or cryptographic validation.
    VerifyInvalidBlock(HeaderHash),
    /// A block failed to decode during verification.
    VerifyMalformedBlock(HeaderHash),
    /// The ledger's recorded genesis hash has no stored block.
    VerifyChainGenesisHashNotFound(HeaderHash),
    /// The walk reached a root anchored to the wrong history: expected and
    /// actual genesis hashes, in that order.
    VerifyChainInvalidGenesisPrevHash(HeaderHash, HeaderHash),
    /// The ledger is not valid; carries the invalid-block count.
    BlockchainIsNotValid(usize),
}

impl Error {
    /// The operator-facing description of each failure kind, with the
    /// structured payload rendered into the text: offending hashes in
    /// lowercase hexadecimal, the invalid-block count in decimal.
    pub open spec fn message_spec(&self) -> Seq<char> {
        match self {
            Error::IoError => "I/O Error"@,
            Error::NewCannotInitializeBlockchainDirectory => "Cannot Initialise the blockchain directory"@,
            Error::ListNoBlockchains => "No local blockchains yet"@,
            Error::ListPermissionsDenied => "No local blockchains (permission denied to the root directory)"@,
            Error::ListBlockchainInvalidName(_) => "Blockchain with invalid name"@,
            Error::ForwardHashDoesNotExist(hh) => "Cannot forward the blockchain to non existant hash `"@
                + hex_of(hh@) + "`"@,
            Error::GetBlockDoesNotExist(hh) => "Block `"@ + hex_of(hh@) + "` does not exist"@,
            Error::GetInvalidBLock(hh) => "Block `"@ + hex_of(hh@)
                + "` cannot be read from the local storage"@,
            Error::CatMalformedBlock(_) => "Unsupported or corrupted block"@,
            Error::VerifyInvalidBlock(_) => "Block is not valid"@,
            Error::VerifyMalformedBlock(_) => "Unsupported or corrupted block"@,
            Error::VerifyChainGenesisHashNotFound(hh) => "Genesis data for given blockchain not found ("@
                + hex_of(hh@) + ")"@,
            Error::VerifyChainInvalidGenesisPrevHash(eh, hh) => "Genesis data invalid: expected previous hash "@
                + hex_of(eh@) + " different from the one provided "@ + hex_of(hh@),
            Error::BlockchainIsNotValid(n) => "Blockchain has "@ + decimal_of(*n as nat)
                + " invalid blocks"@,
        }
    }

    /// The description of the failure, payload included.
    pub fn message(&self) -> (r: String)
        ensures
            r@ == self.message_spec(),
    {
        match self {
            Error::IoError => String::from_str("I/O Error"),
            Error::NewCannotInitializeBlockchainDirectory => String::from_str(
                "Cannot Initialise the blockchain directory",
            ),
            Error::ListNoBlockchains => String::from_str("No local blockchains yet"),
            Error::ListPermissionsDenied => String::from_str(
                "No local blockchains (permission denied to the root directory)",
            ),
            Error::ListBlockchainInvalidName(_) => String::from_str("Blockchain with invalid name"),
            Error::ForwardHashDoesNotExist(hh) => {
                let mut s = String::from_str("Cannot forward the blockchain to non existant hash `");
                let hex = hex_string(hh.as_bytes());
                s.append(hex.as_str());
                s.append("`");
                s
            },
            Error::GetBlockDoesNotExist(hh) => {
                let mut s = String::from_str("Block `");
                let hex = hex_string(hh.as_bytes());
                s.append(hex.as_str());
                s.append("` does not exist");
                s
            },
            Error::GetInvalidBLock(hh) => {
                let mut s = String::from_str("Block `");
                let hex = hex_string(hh.as_bytes());
                s.append(hex.as_str());
                s.append("` cannot be read from the local storage");
                s
            },
            Error::CatMalformedBlock(_) => String::from_str("Unsupported or corrupted block"),
            Error::VerifyInvalidBlock(_) => String::from_str("Block is not valid"),
            Error::VerifyMalformedBlock(_) => String::from_str("Unsupported or corrupted block"),
            Error::VerifyChainGenesisHashNotFound(hh) => {
                let mut s = String::from_str("Genesis data for given blockchain not found (");
                let hex = hex_string(hh.as_bytes());
                s.append(hex.as_str());
                s.append(")");
                s
            },
            Error::VerifyChainInvalidGenesisPrevHash(eh, hh) => {
                let mut s = String::from_str("Genesis data invalid: expected previous hash ");
                let expected_hex = hex_string(eh.as_bytes());
                s.append(expected_hex.as_str());
                s.append(" different from the one provided ");
                let got_hex = hex_string(hh.as_bytes());
                s.append(got_hex.as_str());
                s
            },
            Error::BlockchainIsNotValid(n) => {
                let mut s = String::from_str("Blockchain has ");
                let count = decimal_string(*n);
                s.append(count.as_str());
                s.append(" invalid blocks");
                s
            },
        }
    }
}

} // verus!
