//! Why a command stops.

use vstd::prelude::*;

use crate::types::SigningSessionPhase;

verus! {

/// The reasons a command refuses its input or the accounts it reads.
#[derive(Clone, Copy, Debug, PartialEq, Eq, Structural)]
pub enum CliError {
    /// Neither the configuration nor the command line names the Mosaic program.
    MosaicIdNotConfigured,
    /// The configured Mosaic program id is no public key.
    InvalidMosaicId,
    /// An operator is no public key.
    InvalidOperatorPubkey,
    /// The destination program id is no public key.
    InvalidDestinationProgram,
    /// No keypair file was given, on the command line or in the configuration.
    KeypairNotSpecified,
    /// The instruction data is no hex string.
    InvalidInstructionHex,
    /// The instruction accounts are no JSON list of accounts.
    InvalidAccountsJson,
    /// An instruction account's key is no public key.
    InvalidAccountPubkey,
    /// The root account's data holds no root.
    RootUndecodable,
    /// The root has used the last session id there is.
    SessionIdOverflow,
    /// The session account's data holds no session.
    SessionUndecodable,
    /// The session cannot be executed before it is approved.
    SessionNotApproved(SigningSessionPhase),
    /// A session stores an instruction account that cannot be read.
    InstructionAccountUndecodable,
    /// No program address could be derived from the seeds.
    NoProgramAddress,
    /// A length does not fit in the four bytes the program reads it from.
    DataTooLong,
}

} // verus!
