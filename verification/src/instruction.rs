//! Instructions as the library builds them: the program, the accounts with their
//! roles, and the data.

use vstd::prelude::*;

use crate::wire::push_raw;

verus! {

/// An account an instruction reads or writes, and whether it must sign.
#[derive(Clone, Copy, Debug)]
pub struct AccountMeta {
    pub pubkey: [u8; 32],
    pub is_signer: bool,
    pub is_writable: bool,
}

pub struct AccountMetaView {
    pub pubkey: Seq<u8>,
    pub is_signer: bool,
    pub is_writable: bool,
}

impl View for AccountMeta {
    type V = AccountMetaView;

    open spec fn view(&self) -> AccountMetaView {
        AccountMetaView {
            pubkey: self.pubkey@,
            is_signer: self.is_signer,
            is_writable: self.is_writable,
        }
    }
}

/// An account that signs and is written.
pub open spec fn signer_writable(k: Seq<u8>) -> AccountMetaView {
    AccountMetaView { pubkey: k, is_signer: true, is_writable: true }
}

/// An account that is written and does not sign.
pub open spec fn writable(k: Seq<u8>) -> AccountMetaView {
    AccountMetaView { pubkey: k, is_signer: false, is_writable: true }
}

/// An account that is only read and does not sign.
pub open spec fn readonly(k: Seq<u8>) -> AccountMetaView {
    AccountMetaView { pubkey: k, is_signer: false, is_writable: false }
}

impl AccountMeta {
    /// An account that is written.
    pub fn new(pubkey: [u8; 32], is_signer: bool) -> (r: AccountMeta)
        ensures
            r@ == (AccountMetaView { pubkey: pubkey@, is_signer, is_writable: true }),
    {
        AccountMeta { pubkey, is_signer, is_writable: true }
    }

    /// An account that is only read.
    pub fn new_readonly(pubkey: [u8; 32], is_signer: bool) -> (r: AccountMeta)
        ensures
            r@ == (AccountMetaView { pubkey: pubkey@, is_signer, is_writable: false }),
    {
        AccountMeta { pubkey, is_signer, is_writable: false }
    }
}

/// The views of a sequence of accounts.
pub open spec fn metas_view(ms: Seq<AccountMeta>) -> Seq<AccountMetaView> {
    ms.map_values(|m: AccountMeta| m@)
}

/// An instruction for a program.
#[derive(Debug)]
pub struct Instruction {
    pub program_id: [u8; 32],
    pub accounts: Vec<AccountMeta>,
    pub data: Vec<u8>,
}

pub struct InstructionView {
    pub program_id: Seq<u8>,
    pub accounts: Seq<AccountMetaView>,
    pub data: Seq<u8>,
}

impl View for Instruction {
    type V = InstructionView;

    open spec fn view(&self) -> InstructionView {
        InstructionView {
            program_id: self.program_id@,
            accounts: metas_view(self.accounts@),
            data: self.data@,
        }
    }
}

/// The instruction data: the tag of the instruction, then its serialized fields.
pub fn tagged(tag: u8, payload: &[u8]) -> (r: Vec<u8>)
    ensures
        r@ == seq![tag] + payload@,
{
    let mut out: Vec<u8> = Vec::new();
    out.push(tag);
    push_raw(&mut out, payload);
    assert(out@ =~= seq![tag] + payload@);
    out
}

} // verus!
