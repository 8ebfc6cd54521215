//! The two accounts the Mosaic program keeps: the root, which holds the operators and
//! the threshold, and a signing session per proposed instruction. Each is stored as
//! exactly the bytes of its fields in order; reading accepts those bytes and no others.

use vstd::prelude::*;

use crate::types::{parse_phase, SigningSessionPhase};
use crate::wire::{
    byte_vecs_view, byte_vecs_wf, enc_byte_vecs, enc_bytes, enc_keys, keys_view, keys_wf,
    lemma_parse_byte_vecs, lemma_parse_byte_vecs_canonical, lemma_parse_bytes,
    lemma_parse_bytes_canonical, lemma_parse_key, lemma_parse_key_canonical, lemma_parse_keys,
    lemma_parse_keys_canonical, lemma_parse_u16, lemma_parse_u16_canonical, lemma_parse_u8,
    lemma_parse_u8_canonical, parse_byte_vecs, parse_bytes, parse_key, parse_keys, parse_u16,
    parse_u8, push_byte_vecs, push_bytes, push_key, push_keys, push_u16_le, read_byte_vecs,
    read_bytes, read_key, read_keys, read_u16_le, read_u8, u16_le, KEY_LEN,
};

verus! {

/// `pinocchio::error::ProgramError`, the error of the Mosaic program.
#[verifier::external_type_specification]
#[verifier::external_body]
pub struct ExProgramError(pinocchio::error::ProgramError);

/// Calls nothing but builds `pinocchio::error::ProgramError::InvalidAccountData`, the
/// error the program answers for account data it cannot read or write. The value is
/// opaque here: no clause says which variant it is.
#[verifier::external_body]
fn invalid_account_data() -> pinocchio::error::ProgramError {
    pinocchio::error::ProgramError::InvalidAccountData
}

/// The root account of a multisig.
#[derive(Debug)]
pub struct Root {
    pub operators: Vec<[u8; 32]>,
    pub last_id: u16,
    pub threshold: u8,
    pub destination_program: [u8; 32],
    pub bump: u8,
}

pub struct RootView {
    pub operators: Seq<Seq<u8>>,
    pub last_id: u16,
    pub threshold: u8,
    pub destination_program: Seq<u8>,
    pub bump: u8,
}

impl View for Root {
    type V = RootView;

    open spec fn view(&self) -> RootView {
        RootView {
            operators: keys_view(self.operators@),
            last_id: self.last_id,
            threshold: self.threshold,
            destination_program: self.destination_program@,
            bump: self.bump,
        }
    }
}

/// A root that can be stored: its keys have 32 bytes and their number fits in four bytes.
pub open spec fn root_wf(v: RootView) -> bool {
    &&& keys_wf(v.operators)
    &&& v.destination_program.len() == KEY_LEN
}

/// The operators, the last session id, the threshold, the destination program, the bump.
pub open spec fn encode_root(v: RootView) -> Seq<u8> {
    enc_keys(v.operators) + u16_le(v.last_id) + seq![v.threshold] + v.destination_program
        + seq![v.bump]
}

pub open spec fn parse_root(s: Seq<u8>) -> Option<(RootView, Seq<u8>)> {
    match parse_keys(s) {
        Some((operators, r1)) => match parse_u16(r1) {
            Some((last_id, r2)) => match parse_u8(r2) {
                Some((threshold, r3)) => match parse_key(r3) {
                    Some((destination_program, r4)) => match parse_u8(r4) {
                        Some((bump, r5)) => Some(
                            (RootView { operators, last_id, threshold, destination_program, bump }, r5),
                        ),
                        None => None,
                    },
                    None => None,
                },
                None => None,
            },
            None => None,
        },
        None => None,
    }
}

/// Bytes that hold exactly one root and nothing after it.
pub open spec fn decode_root(s: Seq<u8>) -> Option<RootView> {
    match parse_root(s) {
        Some((v, r)) => if r.len() == 0 {
            Some(v)
        } else {
            None
        },
        None => None,
    }
}

impl Root {
    /// The bytes of this root; none when there are more operators than four bytes can count.
    pub fn serialize(&self) -> (r: Option<Vec<u8>>)
        ensures
            r is Some <==> root_wf(self@),
            r matches Some(b) ==> b@ == encode_root(self@),
    {
        if self.operators.len() > 0xffff_ffffusize {
            return None;
        }
        let mut out: Vec<u8> = Vec::new();
        push_keys(&mut out, &self.operators);
        push_u16_le(&mut out, self.last_id);
        out.push(self.threshold);
        push_key(&mut out, &self.destination_program);
        out.push(self.bump);
        assert(out@ =~= encode_root(self@));
        Some(out)
    }

    /// The root that `data` holds, if it holds exactly one.
    pub fn try_from_slice(data: &[u8]) -> (r: Option<Root>)
        ensures
            match r {
                Some(v) => decode_root(data@) == Some(v@),
                None => decode_root(data@) is None,
            },
    {
        assert(data@.skip(0) =~= data@);
        let (operators, p) = match read_keys(data, 0) {
            Some(x) => x,
            None => return None,
        };
        let (last_id, p) = match read_u16_le(data, p) {
            Some(x) => x,
            None => return None,
        };
        let (threshold, p) = match read_u8(data, p) {
            Some(x) => x,
            None => return None,
        };
        let (destination_program, p) = match read_key(data, p) {
            Some(x) => x,
            None => return None,
        };
        let (bump, p) = match read_u8(data, p) {
            Some(x) => x,
            None => return None,
        };
        if p != data.len() {
            return None;
        }
        Some(Root { operators, last_id, threshold, destination_program, bump })
    }
}

/// A session proposing one instruction for the operators to approve.
#[derive(Debug)]
pub struct SigningSession {
    pub session_id: u16,
    pub root_pda: [u8; 32],
    pub phase: SigningSessionPhase,
    pub approvals: Vec<[u8; 32]>,
    pub instruction_data: Vec<u8>,
    pub instruction_accounts: Vec<Vec<u8>>,
    pub bump: u8,
}

pub struct SigningSessionView {
    pub session_id: u16,
    pub root_pda: Seq<u8>,
    pub phase: SigningSessionPhase,
    pub approvals: Seq<Seq<u8>>,
    pub instruction_data: Seq<u8>,
    pub instruction_accounts: Seq<Seq<u8>>,
    pub bump: u8,
}

impl View for SigningSession {
    type V = SigningSessionView;

    open spec fn view(&self) -> SigningSessionView {
        SigningSessionView {
            session_id: self.session_id,
            root_pda: self.root_pda@,
            phase: self.phase,
            approvals: keys_view(self.approvals@),
            instruction_data: self.instruction_data@,
            instruction_accounts: byte_vecs_view(self.instruction_accounts@),
            bump: self.bump,
        }
    }
}

/// A session that can be stored: keys have 32 bytes and every length fits in four bytes.
pub open spec fn session_wf(v: SigningSessionView) -> bool {
    &&& v.root_pda.len() == KEY_LEN
    &&& keys_wf(v.approvals)
    &&& v.instruction_data.len() <= u32::MAX
    &&& byte_vecs_wf(v.instruction_accounts)
}

/// The id, the root, the phase, the approvals, the instruction data, the instruction
/// accounts, the bump.
pub open spec fn encode_session(v: SigningSessionView) -> Seq<u8> {
    u16_le(v.session_id) + v.root_pda + seq![v.phase.spec_tag()] + enc_keys(v.approvals)
        + enc_bytes(v.instruction_data) + enc_byte_vecs(v.instruction_accounts) + seq![v.bump]
}

pub open spec fn parse_session(s: Seq<u8>) -> Option<(SigningSessionView, Seq<u8>)> {
    match parse_u16(s) {
        Some((session_id, r1)) => match parse_key(r1) {
            Some((root_pda, r2)) => match parse_phase(r2) {
                Some((phase, r3)) => match parse_keys(r3) {
                    Some((approvals, r4)) => match parse_bytes(r4) {
                        Some((instruction_data, r5)) => match parse_byte_vecs(r5) {
                            Some((instruction_accounts, r6)) => match parse_u8(r6) {
                                Some((bump, r7)) => Some(
                                    (
                                        SigningSessionView {
                                            session_id,
                                            root_pda,
                                            phase,
                                            approvals,
                                            instruction_data,
                                            instruction_accounts,
                                            bump,
                                        },
                                        r7,
                                    ),
                                ),
                                None => None,
                            },
                            None => None,
                        },
                        None => None,
                    },
                    None => None,
                },
                None => None,
            },
            None => None,
        },
        None => None,
    }
}

/// Bytes that hold exactly one session and nothing after it.
pub open spec fn decode_session(s: Seq<u8>) -> Option<SigningSessionView> {
    match parse_session(s) {
        Some((v, r)) => if r.len() == 0 {
            Some(v)
        } else {
            None
        },
        None => None,
    }
}

impl SigningSession {
    /// The bytes of this session; none when a length does not fit in four bytes.
    pub fn serialize(&self) -> (r: Option<Vec<u8>>)
        ensures
            r is Some <==> session_wf(self@),
            r matches Some(b) ==> b@ == encode_session(self@),
    {
        if self.approvals.len() > 0xffff_ffffusize || self.instruction_data.len() > 0xffff_ffffusize
            || self.instruction_accounts.len() > 0xffff_ffffusize {
            return None;
        }
        let mut i: usize = 0;
        while i < self.instruction_accounts.len()
            invariant
                i <= self.instruction_accounts@.len(),
                forall|j: int|
                    0 <= j < i ==> (#[trigger] self.instruction_accounts@[j])@.len() <= u32::MAX,
            decreases self.instruction_accounts@.len() - i,
        {
            if self.instruction_accounts[i].len() > 0xffff_ffffusize {
                assert(byte_vecs_view(self.instruction_accounts@)[i as int]
                    == self.instruction_accounts@[i as int]@);
                return None;
            }
            i = i + 1;
        }
        assert(byte_vecs_wf(byte_vecs_view(self.instruction_accounts@))) by {
            assert forall|j: int|
                0 <= j < byte_vecs_view(self.instruction_accounts@).len() implies (
            #[trigger] byte_vecs_view(self.instruction_accounts@)[j]).len() <= u32::MAX by {
                assert(byte_vecs_view(self.instruction_accounts@)[j]
                    == self.instruction_accounts@[j]@);
            }
        }
        let mut out: Vec<u8> = Vec::new();
        push_u16_le(&mut out, self.session_id);
        push_key(&mut out, &self.root_pda);
        out.push(self.phase.tag());
        push_keys(&mut out, &self.approvals);
        push_bytes(&mut out, self.instruction_data.as_slice());
        push_byte_vecs(&mut out, &self.instruction_accounts);
        out.push(self.bump);
        assert(out@ =~= encode_session(self@));
        Some(out)
    }

    /// The session that `data` holds, if it holds exactly one.
    pub fn try_from_slice(data: &[u8]) -> (r: Option<SigningSession>)
        ensures
            match r {
                Some(v) => decode_session(data@) == Some(v@),
                None => decode_session(data@) is None,
            },
    {
        assert(data@.skip(0) =~= data@);
        let (session_id, p) = match read_u16_le(data, 0) {
            Some(x) => x,
            None => return None,
        };
        let (root_pda, p) = match read_key(data, p) {
            Some(x) => x,
            None => return None,
        };
        let (tag, p) = match read_u8(data, p) {
            Some(x) => x,
            None => return None,
        };
        let phase = match SigningSessionPhase::from_tag(tag) {
            Some(x) => x,
            None => return None,
        };
        let (approvals, p) = match read_keys(data, p) {
            Some(x) => x,
            None => return None,
        };
        let (instruction_data, p) = match read_bytes(data, p) {
            Some(x) => x,
            None => return None,
        };
        let (instruction_accounts, p) = match read_byte_vecs(data, p) {
            Some(x) => x,
            None => return None,
        };
        let (bump, p) = match read_u8(data, p) {
            Some(x) => x,
            None => return None,
        };
        if p != data.len() {
            return None;
        }
        Some(
            SigningSession {
                session_id,
                root_pda,
                phase,
                approvals,
                instruction_data,
                instruction_accounts,
                bump,
            },
        )
    }
}

// ---------------------------------------------------------------------------
// Stored bytes read back as what was written, and bytes that read as an account are
// the bytes of that account.

/// Reading the bytes of a root gives that root back.
pub proof fn lemma_root_roundtrip(v: RootView)
    requires
        root_wf(v),
    ensures
        decode_root(encode_root(v)) == Some(v),
{
    let rest = Seq::<u8>::empty();
    let r5 = rest;
    let r4 = seq![v.bump] + r5;
    let r3 = v.destination_program + r4;
    let r2 = seq![v.threshold] + r3;
    let r1 = u16_le(v.last_id) + r2;
    assert(encode_root(v) =~= enc_keys(v.operators) + r1);
    lemma_parse_keys(v.operators, r1);
    lemma_parse_u16(v.last_id, r2);
    lemma_parse_u8(v.threshold, r3);
    lemma_parse_key(v.destination_program, r4);
    lemma_parse_u8(v.bump, r5);
}

/// Bytes that read as a root are exactly the bytes of that root.
pub proof fn lemma_root_canonical(s: Seq<u8>)
    ensures
        decode_root(s) matches Some(v) ==> root_wf(v) && encode_root(v) == s,
{
    lemma_parse_keys_canonical(s);
    if let Some((operators, r1)) = parse_keys(s) {
        lemma_parse_u16_canonical(r1);
        if let Some((last_id, r2)) = parse_u16(r1) {
            lemma_parse_u8_canonical(r2);
            if let Some((threshold, r3)) = parse_u8(r2) {
                lemma_parse_key_canonical(r3);
                if let Some((destination_program, r4)) = parse_key(r3) {
                    lemma_parse_u8_canonical(r4);
                    if let Some((bump, r5)) = parse_u8(r4) {
                        if r5.len() == 0 {
                            let v = RootView {
                                operators,
                                last_id,
                                threshold,
                                destination_program,
                                bump,
                            };
                            assert(s =~= encode_root(v));
                        }
                    }
                }
            }
        }
    }
}

proof fn lemma_parse_phase(p: SigningSessionPhase, rest: Seq<u8>)
    ensures
        parse_phase(seq![p.spec_tag()] + rest) == Some((p, rest)),
{
    lemma_parse_u8(p.spec_tag(), rest);
}

proof fn lemma_parse_phase_canonical(s: Seq<u8>)
    ensures
        parse_phase(s) matches Some((p, r)) ==> s == seq![p.spec_tag()] + r,
{
    lemma_parse_u8_canonical(s);
}

/// Reading the bytes of a session gives that session back.
pub proof fn lemma_session_roundtrip(v: SigningSessionView)
    requires
        session_wf(v),
    ensures
        decode_session(encode_session(v)) == Some(v),
{
    let r7 = Seq::<u8>::empty();
    let r6 = seq![v.bump] + r7;
    let r5 = enc_byte_vecs(v.instruction_accounts) + r6;
    let r4 = enc_bytes(v.instruction_data) + r5;
    let r3 = enc_keys(v.approvals) + r4;
    let r2 = seq![v.phase.spec_tag()] + r3;
    let r1 = v.root_pda + r2;
    assert(encode_session(v) =~= u16_le(v.session_id) + r1);
    lemma_parse_u16(v.session_id, r1);
    lemma_parse_key(v.root_pda, r2);
    lemma_parse_phase(v.phase, r3);
    lemma_parse_keys(v.approvals, r4);
    lemma_parse_bytes(v.instruction_data, r5);
    lemma_parse_byte_vecs(v.instruction_accounts, r6);
    lemma_parse_u8(v.bump, r7);
}

/// Bytes that read as a session are exactly the bytes of that session.
pub proof fn lemma_session_canonical(s: Seq<u8>)
    ensures
        decode_session(s) matches Some(v) ==> session_wf(v) && encode_session(v) == s,
{
    if let Some((v, r7)) = parse_session(s) {
        if r7.len() == 0 {
            lemma_session_prefix_canonical(s);
            assert(s =~= encode_session(v));
        }
    }
}

/// Bytes that start with a session are the bytes of that session, then the rest.
#[verifier::spinoff_prover]
#[verifier::rlimit(40)]
proof fn lemma_session_prefix_canonical(s: Seq<u8>)
    ensures
        parse_session(s) matches Some((v, r)) ==> session_wf(v) && s == encode_session(v) + r,
{
    lemma_parse_u16_canonical(s);
    if let Some((session_id, r1)) = parse_u16(s) {
        let p1 = u16_le(session_id);
        lemma_parse_key_canonical(r1);
        if let Some((root_pda, r2)) = parse_key(r1) {
            let p2 = p1 + root_pda;
            assert(s =~= p2 + r2);
            lemma_parse_phase_canonical(r2);
            if let Some((phase, r3)) = parse_phase(r2) {
                let p3 = p2 + seq![phase.spec_tag()];
                assert(s =~= p3 + r3);
                lemma_parse_keys_canonical(r3);
                if let Some((approvals, r4)) = parse_keys(r3) {
                    let p4 = p3 + enc_keys(approvals);
                    assert(s =~= p4 + r4);
                    lemma_parse_bytes_canonical(r4);
                    if let Some((instruction_data, r5)) = parse_bytes(r4) {
                        let p5 = p4 + enc_bytes(instruction_data);
                        assert(s =~= p5 + r5);
                        lemma_parse_byte_vecs_canonical(r5);
                        if let Some((instruction_accounts, r6)) = parse_byte_vecs(r5) {
                            let p6 = p5 + enc_byte_vecs(instruction_accounts);
                            assert(s =~= p6 + r6);
                            lemma_parse_u8_canonical(r6);
                            if let Some((bump, r7)) = parse_u8(r6) {
                                let p7 = p6 + seq![bump];
                                assert(s =~= p7 + r7);
                                let v = SigningSessionView {
                                    session_id,
                                    root_pda,
                                    phase,
                                    approvals,
                                    instruction_data,
                                    instruction_accounts,
                                    bump,
                                };
                                assert(encode_session(v) == p7);
                            }
                        }
                    }
                }
            }
        }
    }
}

/// In the bytes of a session, the byte after the id and the root is the phase's tag.
proof fn lemma_encoded_phase_byte(v: SigningSessionView)
    requires
        v.root_pda.len() == KEY_LEN,
    ensures
        encode_session(v).len() > 34,
        encode_session(v)[34] == v.phase.spec_tag(),
{
    let head = u16_le(v.session_id) + v.root_pda;
    let with_phase = head + seq![v.phase.spec_tag()];
    assert(with_phase[34] == v.phase.spec_tag());
    let tail = enc_keys(v.approvals) + enc_bytes(v.instruction_data) + enc_byte_vecs(
        v.instruction_accounts,
    ) + seq![v.bump];
    assert(encode_session(v) =~= with_phase + tail);
}

/// The phase of a stored session is the byte after its id and root, read as the
/// index of the phase in the order Uninitialized, Active, Approved, Executed.
pub proof fn lemma_session_phase_byte(s: Seq<u8>)
    ensures
        decode_session(s) matches Some(v) ==> {
            &&& s.len() > 34
            &&& (s[34] == 0 <==> v.phase == SigningSessionPhase::Uninitialized)
            &&& (s[34] == 1 <==> v.phase == SigningSessionPhase::Active)
            &&& (s[34] == 2 <==> v.phase == SigningSessionPhase::Approved)
            &&& (s[34] == 3 <==> v.phase == SigningSessionPhase::Executed)
        },
{
    lemma_session_canonical(s);
    if let Some(v) = decode_session(s) {
        lemma_encoded_phase_byte(v);
    }
}

// ---------------------------------------------------------------------------
// Packing an account into its stored bytes and unpacking it from them.

/// An account the program stores as bytes.
pub trait PackUnpack: Sized + View {
    /// Whether the value can be written at all.
    spec fn spec_packable(v: Self::V) -> bool;

    /// The bytes the value is stored as.
    spec fn spec_packed(v: Self::V) -> Seq<u8>;

    /// The value that stored bytes hold, if they hold exactly one.
    spec fn spec_unpacked(s: Seq<u8>) -> Option<Self::V>;

    /// The serialized data with its length.
    fn pack(&self) -> (r: Result<(Vec<u8>, usize), pinocchio::error::ProgramError>)
        ensures
            r is Ok <==> Self::spec_packable(self@),
            r matches Ok((data, size)) ==> data@ == Self::spec_packed(self@) && size
                == data@.len(),
    ;

    /// The deserialized value; an error when `data` does not hold exactly one.
    fn unpack(data: &[u8]) -> (r: Result<Self, pinocchio::error::ProgramError>)
        ensures
            match r {
                Ok(v) => Self::spec_unpacked(data@) == Some(v@),
                Err(_) => Self::spec_unpacked(data@) is None,
            },
    ;

    /// Unpacking what `pack` writes gives the packed value back, and bytes that unpack to
    /// a value are exactly the bytes `pack` writes for it: unpack undoes pack and reads
    /// all of the packed bytes and no more.
    proof fn lemma_pack_unpack(v: Self::V, s: Seq<u8>)
        ensures
            Self::spec_packable(v) ==> Self::spec_unpacked(Self::spec_packed(v)) == Some(v),
            Self::spec_unpacked(s) matches Some(w) ==> Self::spec_packable(w)
                && Self::spec_packed(w) == s,
    ;
}

impl PackUnpack for Root {
    open spec fn spec_packable(v: RootView) -> bool {
        root_wf(v)
    }

    open spec fn spec_packed(v: RootView) -> Seq<u8> {
        encode_root(v)
    }

    open spec fn spec_unpacked(s: Seq<u8>) -> Option<RootView> {
        decode_root(s)
    }

    fn pack(&self) -> (r: Result<(Vec<u8>, usize), pinocchio::error::ProgramError>) {
        match self.serialize() {
            Some(data) => {
                let size = data.len();
                Ok((data, size))
            },
            None => Err(invalid_account_data()),
        }
    }

    fn unpack(data: &[u8]) -> (r: Result<Root, pinocchio::error::ProgramError>) {
        match Root::try_from_slice(data) {
            Some(v) => Ok(v),
            None => Err(invalid_account_data()),
        }
    }

    proof fn lemma_pack_unpack(v: RootView, s: Seq<u8>) {
        if root_wf(v) {
            lemma_root_roundtrip(v);
        }
        lemma_root_canonical(s);
    }
}

impl PackUnpack for SigningSession {
    open spec fn spec_packable(v: SigningSessionView) -> bool {
        session_wf(v)
    }

    open spec fn spec_packed(v: SigningSessionView) -> Seq<u8> {
        encode_session(v)
    }

    open spec fn spec_unpacked(s: Seq<u8>) -> Option<SigningSessionView> {
        decode_session(s)
    }

    fn pack(&self) -> (r: Result<(Vec<u8>, usize), pinocchio::error::ProgramError>) {
        match self.serialize() {
            Some(data) => {
                let size = data.len();
                Ok((data, size))
            },
            None => Err(invalid_account_data()),
        }
    }

    fn unpack(data: &[u8]) -> (r: Result<SigningSession, pinocchio::error::ProgramError>) {
        match SigningSession::try_from_slice(data) {
            Some(v) => Ok(v),
            None => Err(invalid_account_data()),
        }
    }

    proof fn lemma_pack_unpack(v: SigningSessionView, s: Seq<u8>) {
        if session_wf(v) {
            lemma_session_roundtrip(v);
        }
        lemma_session_canonical(s);
    }
}

} // verus!
