//! The Mosaic program's instructions and accounts, with the exact bytes each is
//! written as and read from.

use vstd::prelude::*;

use crate::wire::{
    bool_byte, byte_vecs_view, byte_vecs_wf, enc_byte_vecs, enc_bytes, enc_keys, keys_view,
    lemma_parse_bool, lemma_parse_bool_canonical, lemma_parse_key, lemma_parse_key_canonical,
    parse_bool, parse_key, parse_u8, push_byte_vecs, push_bytes, push_key, push_keys, read_bool,
    read_key, KEY_LEN,
};

verus! {

/// The instructions of the Mosaic program; each is announced by its tag, the first
/// byte of the instruction data.
#[derive(Clone, Copy, Debug, PartialEq, Eq, Structural)]
pub enum ProgramIx {
    InitializeOperators,
    CreateSession,
    Sign,
    Execute,
    CloseSession,
}

impl ProgramIx {
    pub open spec fn spec_tag(self) -> u8 {
        match self {
            ProgramIx::InitializeOperators => 0,
            ProgramIx::CreateSession => 1,
            ProgramIx::Sign => 2,
            ProgramIx::Execute => 3,
            ProgramIx::CloseSession => 4,
        }
    }

    /// The tag byte of the instruction.
    pub fn tag(&self) -> (r: u8)
        ensures
            r == self.spec_tag(),
    {
        match self {
            ProgramIx::InitializeOperators => 0,
            ProgramIx::CreateSession => 1,
            ProgramIx::Sign => 2,
            ProgramIx::Execute => 3,
            ProgramIx::CloseSession => 4,
        }
    }
}

/// Distinct instructions have distinct tags, so the program can tell them apart by
/// the first byte of the data.
pub proof fn lemma_instruction_tags_distinct(a: ProgramIx, b: ProgramIx)
    ensures
        a.spec_tag() == b.spec_tag() ==> a == b,
{
}

/// Where a signing session stands.
#[derive(Clone, Copy, Debug, PartialEq, Eq, Structural)]
pub enum SigningSessionPhase {
    Uninitialized,
    Active,
    Approved,
    Executed,
}

impl SigningSessionPhase {
    pub open spec fn spec_tag(self) -> u8 {
        match self {
            SigningSessionPhase::Uninitialized => 0,
            SigningSessionPhase::Active => 1,
            SigningSessionPhase::Approved => 2,
            SigningSessionPhase::Executed => 3,
        }
    }

    /// The phase a stored byte stands for; bytes above 3 stand for none.
    pub open spec fn spec_from_tag(t: u8) -> Option<SigningSessionPhase> {
        if t == 0 {
            Some(SigningSessionPhase::Uninitialized)
        } else if t == 1 {
            Some(SigningSessionPhase::Active)
        } else if t == 2 {
            Some(SigningSessionPhase::Approved)
        } else if t == 3 {
            Some(SigningSessionPhase::Executed)
        } else {
            None
        }
    }

    pub fn tag(&self) -> (r: u8)
        ensures
            r == self.spec_tag(),
    {
        match self {
            SigningSessionPhase::Uninitialized => 0,
            SigningSessionPhase::Active => 1,
            SigningSessionPhase::Approved => 2,
            SigningSessionPhase::Executed => 3,
        }
    }

    pub fn from_tag(t: u8) -> (r: Option<SigningSessionPhase>)
        ensures
            r == Self::spec_from_tag(t),
    {
        if t == 0 {
            Some(SigningSessionPhase::Uninitialized)
        } else if t == 1 {
            Some(SigningSessionPhase::Active)
        } else if t == 2 {
            Some(SigningSessionPhase::Approved)
        } else if t == 3 {
            Some(SigningSessionPhase::Executed)
        } else {
            None
        }
    }
}

/// The stored byte of a phase reads back as that phase, and only the four bytes of the
/// phases read as a phase.
pub proof fn lemma_phase_tag_roundtrip(p: SigningSessionPhase, t: u8)
    ensures
        SigningSessionPhase::spec_from_tag(p.spec_tag()) == Some(p),
        SigningSessionPhase::spec_from_tag(t) matches Some(q) ==> q.spec_tag() == t,
        SigningSessionPhase::spec_from_tag(t) is Some <==> t <= 3,
{
}

pub open spec fn parse_phase(s: Seq<u8>) -> Option<(SigningSessionPhase, Seq<u8>)> {
    match parse_u8(s) {
        Some((t, r)) => match SigningSessionPhase::spec_from_tag(t) {
            Some(p) => Some((p, r)),
            None => None,
        },
        None => None,
    }
}

/// An account of an instruction as the user writes it: the key in base58.
#[derive(Debug)]
pub struct InstructionAccountJson {
    pub pubkey: String,
    pub signer: bool,
    pub writable: bool,
}

/// An account of the instruction that a session will execute, as the session stores it.
#[derive(Clone, Copy, Debug)]
pub struct InstructionAccount {
    pub pubkey: [u8; 32],
    pub signer: bool,
    pub writable: bool,
}

pub struct InstructionAccountView {
    pub pubkey: Seq<u8>,
    pub signer: bool,
    pub writable: bool,
}

impl View for InstructionAccount {
    type V = InstructionAccountView;

    open spec fn view(&self) -> InstructionAccountView {
        InstructionAccountView { pubkey: self.pubkey@, signer: self.signer, writable: self.writable }
    }
}

/// The key, then the signer flag, then the writable flag.
pub open spec fn encode_instruction_account(v: InstructionAccountView) -> Seq<u8> {
    v.pubkey + seq![bool_byte(v.signer)] + seq![bool_byte(v.writable)]
}

pub open spec fn parse_instruction_account(s: Seq<u8>) -> Option<(InstructionAccountView, Seq<u8>)> {
    match parse_key(s) {
        Some((k, r1)) => match parse_bool(r1) {
            Some((signer, r2)) => match parse_bool(r2) {
                Some((writable, r3)) => Some(
                    (InstructionAccountView { pubkey: k, signer, writable }, r3),
                ),
                None => None,
            },
            None => None,
        },
        None => None,
    }
}

/// Bytes that hold exactly one instruction account and nothing after it.
pub open spec fn decode_instruction_account(s: Seq<u8>) -> Option<InstructionAccountView> {
    match parse_instruction_account(s) {
        Some((v, r)) => if r.len() == 0 {
            Some(v)
        } else {
            None
        },
        None => None,
    }
}

impl InstructionAccount {
    /// The bytes of this account.
    pub fn serialize(&self) -> (r: Vec<u8>)
        ensures
            r@ == encode_instruction_account(self@),
    {
        let mut out: Vec<u8> = Vec::new();
        push_key(&mut out, &self.pubkey);
        out.push(if self.signer { 1u8 } else { 0u8 });
        out.push(if self.writable { 1u8 } else { 0u8 });
        assert(out@ =~= encode_instruction_account(self@));
        out
    }

    /// The account that `data` holds, if it holds exactly one.
    pub fn try_from_slice(data: &[u8]) -> (r: Option<InstructionAccount>)
        ensures
            match r {
                Some(v) => decode_instruction_account(data@) == Some(v@),
                None => decode_instruction_account(data@) is None,
            },
    {
        assert(data@.skip(0) =~= data@);
        let (pubkey, p) = match read_key(data, 0) {
            Some(x) => x,
            None => return None,
        };
        let (signer, p) = match read_bool(data, p) {
            Some(x) => x,
            None => return None,
        };
        let (writable, p) = match read_bool(data, p) {
            Some(x) => x,
            None => return None,
        };
        if p != data.len() {
            return None;
        }
        Some(InstructionAccount { pubkey, signer, writable })
    }
}

/// Reading the bytes of an instruction account gives that account back.
pub proof fn lemma_instruction_account_roundtrip(v: InstructionAccountView)
    requires
        v.pubkey.len() == KEY_LEN,
    ensures
        decode_instruction_account(encode_instruction_account(v)) == Some(v),
{
    let r3 = Seq::<u8>::empty();
    let r2 = seq![bool_byte(v.writable)] + r3;
    let r1 = seq![bool_byte(v.signer)] + r2;
    assert(encode_instruction_account(v) =~= v.pubkey + r1);
    lemma_parse_key(v.pubkey, r1);
    lemma_parse_bool(v.signer, r2);
    lemma_parse_bool(v.writable, r3);
}

/// Bytes that read as an instruction account are exactly the bytes of that account.
pub proof fn lemma_instruction_account_canonical(s: Seq<u8>)
    ensures
        decode_instruction_account(s) matches Some(v) ==> v.pubkey.len() == KEY_LEN
            && encode_instruction_account(v) == s,
{
    lemma_parse_key_canonical(s);
    if let Some((k, r1)) = parse_key(s) {
        lemma_parse_bool_canonical(r1);
        if let Some((signer, r2)) = parse_bool(r1) {
            lemma_parse_bool_canonical(r2);
            if let Some((writable, r3)) = parse_bool(r2) {
                if r3.len() == 0 {
                    let v = InstructionAccountView { pubkey: k, signer, writable };
                    assert(s =~= encode_instruction_account(v));
                }
            }
        }
    }
}

/// Data of the instruction that creates the root account.
pub struct InitializeRootIxData {
    pub operators: Vec<[u8; 32]>,
    pub threshold: u8,
    pub destination_program: [u8; 32],
    pub bump: u8,
}

impl InitializeRootIxData {
    /// The operators, then the threshold, the destination program and the bump.
    pub open spec fn spec_encoding(&self) -> Seq<u8> {
        enc_keys(keys_view(self.operators@)) + seq![self.threshold] + self.destination_program@
            + seq![self.bump]
    }

    /// The bytes of this data; none when there are more operators than four bytes can count.
    pub fn serialize(&self) -> (r: Option<Vec<u8>>)
        ensures
            r is Some <==> self.operators@.len() <= u32::MAX,
            r matches Some(b) ==> b@ == self.spec_encoding(),
    {
        if self.operators.len() > 0xffff_ffffusize {
            return None;
        }
        let mut out: Vec<u8> = Vec::new();
        push_keys(&mut out, &self.operators);
        out.push(self.threshold);
        push_key(&mut out, &self.destination_program);
        out.push(self.bump);
        assert(out@ =~= self.spec_encoding());
        Some(out)
    }
}

/// Data of the instruction that opens a signing session.
pub struct CreateSessionIxData {
    pub instruction_data: Vec<u8>,
    pub instruction_accounts: Vec<Vec<u8>>,
    pub bump: u8,
}

impl CreateSessionIxData {
    pub open spec fn spec_fits(&self) -> bool {
        &&& self.instruction_data@.len() <= u32::MAX
        &&& byte_vecs_wf(byte_vecs_view(self.instruction_accounts@))
    }

    /// The instruction data, then the serialized accounts, then the bump.
    pub open spec fn spec_encoding(&self) -> Seq<u8> {
        enc_bytes(self.instruction_data@) + enc_byte_vecs(
            byte_vecs_view(self.instruction_accounts@),
        ) + seq![self.bump]
    }

    /// The bytes of this data; none when a length does not fit in four bytes.
    pub fn serialize(&self) -> (r: Option<Vec<u8>>)
        ensures
            r is Some <==> self.spec_fits(),
            r matches Some(b) ==> b@ == self.spec_encoding(),
    {
        if self.instruction_data.len() > 0xffff_ffffusize || self.instruction_accounts.len()
            > 0xffff_ffffusize {
            return None;
        }
        let mut i: usize = 0;
        while i < self.instruction_accounts.len()
            invariant
                i <= self.instruction_accounts@.len(),
                forall|j: int|
                    0 <= j < i ==> (#[trigger] self.instruction_accounts@[j])@.len() <= u32::MAX,
            decreases self.instruction_accounts@.len() - i,
        {
            if self.instruction_accounts[i].len() > 0xffff_ffffusize {
                assert(byte_vecs_view(self.instruction_accounts@)[i as int]
                    == self.instruction_accounts@[i as int]@);
                return None;
            }
            i = i + 1;
        }
        assert(byte_vecs_wf(byte_vecs_view(self.instruction_accounts@))) by {
            assert forall|j: int|
                0 <= j < byte_vecs_view(self.instruction_accounts@).len() implies (
            #[trigger] byte_vecs_view(self.instruction_accounts@)[j]).len() <= u32::MAX by {
                assert(byte_vecs_view(self.instruction_accounts@)[j]
                    == self.instruction_accounts@[j]@);
            }
        }
        let mut out: Vec<u8> = Vec::new();
        push_bytes(&mut out, self.instruction_data.as_slice());
        push_byte_vecs(&mut out, &self.instruction_accounts);
        out.push(self.bump);
        assert(out@ =~= self.spec_encoding());
        Some(out)
    }
}

/// Data of the instruction that approves a session.
pub struct SignIxData {
    pub bump: u8,
}

impl SignIxData {
    pub open spec fn spec_encoding(&self) -> Seq<u8> {
        seq![self.bump]
    }

    pub fn serialize(&self) -> (r: Vec<u8>)
        ensures
            r@ == self.spec_encoding(),
    {
        let mut out: Vec<u8> = Vec::new();
        out.push(self.bump);
        assert(out@ =~= self.spec_encoding());
        out
    }
}

/// Data of the instruction that executes an approved session: nothing.
pub struct ExecuteIxData {}

impl ExecuteIxData {
    pub open spec fn spec_encoding(&self) -> Seq<u8> {
        Seq::empty()
    }

    pub fn serialize(&self) -> (r: Vec<u8>)
        ensures
            r@ == self.spec_encoding(),
    {
        let out: Vec<u8> = Vec::new();
        assert(out@ =~= self.spec_encoding());
        out
    }
}

/// Data of the instruction that closes a session.
pub struct CloseSessionIxData {
    pub bump: u8,
}

impl CloseSessionIxData {
    pub open spec fn spec_encoding(&self) -> Seq<u8> {
        seq![self.bump]
    }

    pub fn serialize(&self) -> (r: Vec<u8>)
        ensures
            r@ == self.spec_encoding(),
    {
        let mut out: Vec<u8> = Vec::new();
        out.push(self.bump);
        assert(out@ =~= self.spec_encoding());
        out
    }
}

} // verus!
