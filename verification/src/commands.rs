//! What each command decides between its reads and its writes: the checks on its
//! input, the addresses it derives and the instruction it sends.
//!
//! A command runs in steps. A `prepare_*` step takes the command line and the
//! configuration; the caller then loads the keypair and reads the accounts the step
//! names, and a `finish_*` or `build_*` step takes what was read and gives the
//! instruction to sign and send.

use vstd::prelude::*;

use crate::address::{
    base58_pubkey, parse_pubkey, program_address, root_pda, root_seeds, session_seeds,
    signing_session_pda, system_program, zero_key,
};
use crate::config::{
    get_mosaic_id, resolve_keypair_path, spec_keypair_path, spec_mosaic_id, Config,
};
use crate::error::CliError;
use crate::instruction::{
    metas_view, readonly, signer_writable, tagged, writable, AccountMeta, Instruction,
    InstructionView,
};
use crate::hexdata::{decode_instruction_data, hex_decode, strip_hex_prefix};
use crate::state::{decode_root, decode_session, Root, SigningSession};
use crate::types::{
    decode_instruction_account, encode_instruction_account, CloseSessionIxData,
    CreateSessionIxData, ExecuteIxData, InitializeRootIxData, InstructionAccount,
    InstructionAccountJson, InstructionAccountView, ProgramIx, SignIxData, SigningSessionPhase,
};
use crate::wire::{byte_vecs_view, byte_vecs_wf, enc_byte_vecs, enc_bytes, enc_keys, keys_view};
use vstd::string::StringSliceAdditionalSpecFns;

verus! {

/// The call failed with `e`.
pub open spec fn fails_with<T>(r: Result<T, CliError>, e: CliError) -> bool {
    r matches Err(x) && x == e
}

/// The keys that the texts denote, or `err` when one of them denotes none.
pub open spec fn spec_parse_keys(strs: Seq<String>, err: CliError) -> Result<
    Seq<Seq<u8>>,
    CliError,
> {
    if forall|i: int| 0 <= i < strs.len() ==> (#[trigger] base58_pubkey(strs[i]@)) is Some {
        Ok(Seq::new(strs.len(), |i: int| base58_pubkey(strs[i]@)->0))
    } else {
        Err(err)
    }
}

/// The key that the text denotes, or `err` when it denotes none.
pub open spec fn spec_parse_key(s: Seq<char>, err: CliError) -> Result<Seq<u8>, CliError> {
    match base58_pubkey(s) {
        Some(k) => Ok(k),
        None => Err(err),
    }
}

/// Keys, or why there are none, with the keys taken by their bytes.
pub open spec fn keys_result_view(r: Result<Vec<[u8; 32]>, CliError>) -> Result<
    Seq<Seq<u8>>,
    CliError,
> {
    match r {
        Ok(v) => Ok(keys_view(v@)),
        Err(e) => Err(e),
    }
}

/// The operators' keys, in the order given.
pub fn parse_operators(operators: &Vec<String>) -> (r: Result<Vec<[u8; 32]>, CliError>)
    ensures
        keys_result_view(r) == spec_parse_keys(operators@, CliError::InvalidOperatorPubkey),
{
    let mut keys: Vec<[u8; 32]> = Vec::new();
    let mut i: usize = 0;
    while i < operators.len()
        invariant
            i <= operators@.len(),
            keys@.len() == i,
            forall|j: int|
                0 <= j < i ==> base58_pubkey(operators@[j]@) == Some(#[trigger] keys@[j]@),
        decreases operators@.len() - i,
    {
        match parse_pubkey(operators[i].as_str()) {
            Some(k) => {
                keys.push(k);
            },
            None => {
                assert(base58_pubkey(operators@[i as int]@) is None);
                return Err(CliError::InvalidOperatorPubkey);
            },
        }
        i = i + 1;
    }
    assert(forall|j: int|
        0 <= j < operators@.len() ==> (#[trigger] base58_pubkey(operators@[j]@)) is Some) by {
        assert forall|j: int| 0 <= j < operators@.len() implies (#[trigger] base58_pubkey(
            operators@[j]@,
        )) is Some by {
            assert(base58_pubkey(operators@[j]@) == Some(keys@[j]@));
        }
    }
    assert(keys_view(keys@) =~= Seq::new(
        operators@.len(),
        |j: int| base58_pubkey(operators@[j]@)->0,
    ));
    Ok(keys)
}

/// The destination program's key.
pub fn parse_destination_program(s: &str) -> (r: Result<[u8; 32], CliError>)
    ensures
        crate::config::key_result_view(r) == spec_parse_key(
            s@,
            CliError::InvalidDestinationProgram,
        ),
{
    match parse_pubkey(s) {
        Some(k) => Ok(k),
        None => Err(CliError::InvalidDestinationProgram),
    }
}

// ---------------------------------------------------------------------------
// initialize-root

/// What `initialize-root` knows before it loads the payer's keypair.
pub struct InitializeRootPrep {
    pub program_id: [u8; 32],
    pub operators: Vec<[u8; 32]>,
    pub destination_program: [u8; 32],
    pub keypair_path: String,
}

/// Checks the command line of `initialize-root`: the program id, the operators, the
/// destination program and the payer's keypair file, failing on the first that is
/// wrong.
pub fn prepare_initialize_root(
    config: &Config,
    operators: &Vec<String>,
    destination_program: &str,
    payer_path: Option<String>,
) -> (r: Result<InitializeRootPrep, CliError>)
    ensures
        match spec_mosaic_id(*config) {
            Err(e) => fails_with(r, e),
            Ok(id) => match spec_parse_keys(operators@, CliError::InvalidOperatorPubkey) {
                Err(e) => fails_with(r, e),
                Ok(keys) => match spec_parse_key(
                    destination_program@,
                    CliError::InvalidDestinationProgram,
                ) {
                    Err(e) => fails_with(r, e),
                    Ok(dest) => match spec_keypair_path(payer_path, *config) {
                        Err(e) => fails_with(r, e),
                        Ok(path) => r matches Ok(p) && p.program_id@ == id && keys_view(
                            p.operators@,
                        ) == keys && p.destination_program@ == dest && p.keypair_path == path,
                    },
                },
            },
        },
{
    let program_id = get_mosaic_id(config)?;
    let operators = parse_operators(operators)?;
    let destination_program = parse_destination_program(destination_program)?;
    let keypair_path = resolve_keypair_path(payer_path, config)?;
    Ok(InitializeRootPrep { program_id, operators, destination_program, keypair_path })
}

/// The instruction that creates the root account.
pub open spec fn spec_initialize_root_instruction(
    program_id: Seq<u8>,
    payer: Seq<u8>,
    root: Seq<u8>,
    bump: u8,
    operators: Seq<Seq<u8>>,
    threshold: u8,
    destination: Seq<u8>,
) -> InstructionView {
    InstructionView {
        program_id,
        accounts: seq![signer_writable(payer), writable(root), readonly(zero_key())],
        data: seq![ProgramIx::InitializeOperators.spec_tag()] + enc_keys(operators) + seq![
            threshold,
        ] + destination + seq![bump],
    }
}

/// The data that creates the root is laid out as the program reads it: the tag 0, the
/// number of operators in four bytes least significant first, each operator's key in
/// order, then the threshold exactly as requested, the destination program and the
/// bump; the accounts are the payer (signing), the root and the system program.
pub proof fn lemma_initialize_root_layout(
    program_id: Seq<u8>,
    payer: Seq<u8>,
    root: Seq<u8>,
    bump: u8,
    operators: Seq<Seq<u8>>,
    threshold: u8,
    destination: Seq<u8>,
)
    requires
        crate::wire::keys_wf(operators),
        destination.len() == 32,
    ensures
        ({
            let d = spec_initialize_root_instruction(
                program_id,
                payer,
                root,
                bump,
                operators,
                threshold,
                destination,
            ).data;
            let n = operators.len() as int;
            &&& d.len() == 39 + 32 * n
            &&& d[0] == 0
            &&& d[1] as int + d[2] as int * 256 + d[3] as int * 65536 + d[4] as int * 16777216
                == n
            &&& forall|i: int|
                0 <= i < n ==> d.subrange(5 + 32 * i, 5 + 32 * i + 32) == #[trigger] operators[i]
            &&& d[5 + 32 * n] == threshold
            &&& d.subrange(6 + 32 * n, 38 + 32 * n) == destination
            &&& d[38 + 32 * n] == bump
        }),
        spec_initialize_root_instruction(
            program_id,
            payer,
            root,
            bump,
            operators,
            threshold,
            destination,
        ).accounts == seq![signer_writable(payer), writable(root), readonly(zero_key())],
{
    let d = spec_initialize_root_instruction(
        program_id,
        payer,
        root,
        bump,
        operators,
        threshold,
        destination,
    ).data;
    let n = operators.len() as int;
    let count = crate::wire::u32_le(n as u32);
    let keys = crate::wire::concat_keys(operators);
    crate::wire::lemma_u32_le_value(n as u32);
    crate::wire::lemma_concat_keys_layout(operators);
    assert(d =~= seq![0u8] + count + keys + seq![threshold] + destination + seq![bump]);
    assert(d[1] == count[0] && d[2] == count[1] && d[3] == count[2] && d[4] == count[3]);
    assert forall|i: int| 0 <= i < n implies d.subrange(5 + 32 * i, 5 + 32 * i + 32)
        == #[trigger] operators[i] by {
        assert(d.subrange(5 + 32 * i, 5 + 32 * i + 32) =~= keys.subrange(32 * i, 32 * i + 32));
    }
    assert(d.subrange(6 + 32 * n, 38 + 32 * n) =~= destination);
}

/// The instruction that creates the root account at `root_pda`, paid for by `payer`.
pub fn build_initialize_root(
    program_id: &[u8; 32],
    payer: &[u8; 32],
    root_pda: &[u8; 32],
    root_bump: u8,
    operators: Vec<[u8; 32]>,
    threshold: u8,
    destination_program: &[u8; 32],
) -> (r: Result<Instruction, CliError>)
    ensures
        operators@.len() <= u32::MAX ==> (r matches Ok(ix) && ix@
            == spec_initialize_root_instruction(
            program_id@,
            payer@,
            root_pda@,
            root_bump,
            keys_view(operators@),
            threshold,
            destination_program@,
        )),
        operators@.len() > u32::MAX ==> fails_with(r, CliError::DataTooLong),
{
    let ix_data = InitializeRootIxData {
        operators,
        threshold,
        destination_program: *destination_program,
        bump: root_bump,
    };
    let payload = match ix_data.serialize() {
        Some(b) => b,
        None => return Err(CliError::DataTooLong),
    };
    let data = tagged(ProgramIx::InitializeOperators.tag(), payload.as_slice());
    let mut accounts: Vec<AccountMeta> = Vec::new();
    accounts.push(AccountMeta::new(*payer, true));
    accounts.push(AccountMeta::new(*root_pda, false));
    accounts.push(AccountMeta::new_readonly(system_program(), false));
    let ix = Instruction { program_id: *program_id, accounts, data };
    assert(metas_view(ix.accounts@) =~= seq![
        signer_writable(payer@),
        writable(root_pda@),
        readonly(zero_key()),
    ]);
    assert(ix.data@ =~= spec_initialize_root_instruction(
        program_id@,
        payer@,
        root_pda@,
        root_bump,
        keys_view(ix_data.operators@),
        threshold,
        destination_program@,
    ).data);
    Ok(ix)
}

/// The root account's address and the instruction that creates it.
pub struct InitializeRootPlan {
    pub root_pda: [u8; 32],
    pub instruction: Instruction,
}

/// Derives the root account's address and builds the instruction that creates it.
pub fn finish_initialize_root(prep: InitializeRootPrep, threshold: u8, payer: &[u8; 32]) -> (r:
    Result<InitializeRootPlan, CliError>)
    ensures
        match program_address(root_seeds(), prep.program_id@) {
            None => fails_with(r, CliError::NoProgramAddress),
            Some((root, bump)) => if prep.operators@.len() <= u32::MAX {
                r matches Ok(plan) && plan.root_pda@ == root && plan.instruction@
                    == spec_initialize_root_instruction(
                    prep.program_id@,
                    payer@,
                    root,
                    bump,
                    keys_view(prep.operators@),
                    threshold,
                    prep.destination_program@,
                )
            } else {
                fails_with(r, CliError::DataTooLong)
            },
        },
{
    let (root, bump) = match root_pda(&prep.program_id) {
        Some(x) => x,
        None => return Err(CliError::NoProgramAddress),
    };
    let instruction = build_initialize_root(
        &prep.program_id,
        payer,
        &root,
        bump,
        prep.operators,
        threshold,
        &prep.destination_program,
    )?;
    Ok(InitializeRootPlan { root_pda: root, instruction })
}

// ---------------------------------------------------------------------------
// Reading accounts

/// The root that the root account's data holds.
pub fn decode_root_account(data: &[u8]) -> (r: Result<Root, CliError>)
    ensures
        match decode_root(data@) {
            Some(v) => r matches Ok(root) && root@ == v,
            None => fails_with(r, CliError::RootUndecodable),
        },
{
    match Root::try_from_slice(data) {
        Some(root) => Ok(root),
        None => Err(CliError::RootUndecodable),
    }
}

/// The session that a session account's data holds.
pub fn decode_session_account(data: &[u8]) -> (r: Result<SigningSession, CliError>)
    ensures
        match decode_session(data@) {
            Some(v) => r matches Ok(session) && session@ == v,
            None => fails_with(r, CliError::SessionUndecodable),
        },
{
    match SigningSession::try_from_slice(data) {
        Some(session) => Ok(session),
        None => Err(CliError::SessionUndecodable),
    }
}

// ---------------------------------------------------------------------------
// create-session

/// The serialized instruction accounts, or `InvalidAccountPubkey` when a key is no
/// public key.
pub open spec fn spec_encode_accounts(accounts: Seq<InstructionAccountJson>) -> Result<
    Seq<Seq<u8>>,
    CliError,
> {
    if forall|i: int|
        0 <= i < accounts.len() ==> (#[trigger] base58_pubkey(accounts[i].pubkey@)) is Some {
        Ok(
            Seq::new(
                accounts.len(),
                |i: int|
                    encode_instruction_account(
                        InstructionAccountView {
                            pubkey: base58_pubkey(accounts[i].pubkey@)->0,
                            signer: accounts[i].signer,
                            writable: accounts[i].writable,
                        },
                    ),
            ),
        )
    } else {
        Err(CliError::InvalidAccountPubkey)
    }
}

/// Byte strings, or why there are none, with the strings taken by their bytes.
pub open spec fn byte_vecs_result_view(r: Result<Vec<Vec<u8>>, CliError>) -> Result<
    Seq<Seq<u8>>,
    CliError,
> {
    match r {
        Ok(v) => Ok(byte_vecs_view(v@)),
        Err(e) => Err(e),
    }
}

/// Each stored account keeps the key and both flags as the user gave them: its last
/// byte is the writable flag, the byte before it the signer flag (1 for true, 0 for
/// false), and the bytes before those the account's key.
pub proof fn lemma_encoded_accounts_keep_flags(accounts: Seq<InstructionAccountJson>)
    ensures
        spec_encode_accounts(accounts) matches Ok(enc) ==> {
            &&& enc.len() == accounts.len()
            &&& forall|i: int|
                0 <= i < accounts.len() ==> {
                    let e = #[trigger] enc[i];
                    &&& e.len() >= 2
                    &&& e[e.len() - 1] == (if accounts[i].writable {
                        1u8
                    } else {
                        0u8
                    })
                    &&& e[e.len() - 2] == (if accounts[i].signer {
                        1u8
                    } else {
                        0u8
                    })
                    &&& e.take(e.len() - 2) == base58_pubkey(accounts[i].pubkey@)->0
                }
        },
{
    if let Ok(enc) = spec_encode_accounts(accounts) {
        assert forall|i: int| 0 <= i < accounts.len() implies {
            let e = #[trigger] enc[i];
            &&& e.len() >= 2
            &&& e[e.len() - 1] == (if accounts[i].writable {
                1u8
            } else {
                0u8
            })
            &&& e[e.len() - 2] == (if accounts[i].signer {
                1u8
            } else {
                0u8
            })
            &&& e.take(e.len() - 2) == base58_pubkey(accounts[i].pubkey@)->0
        } by {
            let k = base58_pubkey(accounts[i].pubkey@)->0;
            let e = enc[i];
            assert(e.take(e.len() - 2) =~= k);
        }
    }
}

/// Each account of the proposed instruction as the session stores it.
pub fn encode_instruction_accounts(accounts: &Vec<InstructionAccountJson>) -> (r: Result<
    Vec<Vec<u8>>,
    CliError,
>)
    ensures
        byte_vecs_result_view(r) == spec_encode_accounts(accounts@),
        r matches Ok(v) ==> forall|i: int|
            0 <= i < accounts@.len() ==> decode_instruction_account(#[trigger] v@[i]@) == Some(
                InstructionAccountView {
                    pubkey: base58_pubkey(accounts@[i].pubkey@)->0,
                    signer: accounts@[i].signer,
                    writable: accounts@[i].writable,
                },
            ),
{
    let mut out: Vec<Vec<u8>> = Vec::new();
    let mut i: usize = 0;
    while i < accounts.len()
        invariant
            i <= accounts@.len(),
            out@.len() == i,
            forall|j: int|
                0 <= j < i ==> (#[trigger] base58_pubkey(accounts@[j].pubkey@)) is Some && out@[j]@
                    == encode_instruction_account(
                    InstructionAccountView {
                        pubkey: base58_pubkey(accounts@[j].pubkey@)->0,
                        signer: accounts@[j].signer,
                        writable: accounts@[j].writable,
                    },
                ) && base58_pubkey(accounts@[j].pubkey@)->0.len() == 32,
        decreases accounts@.len() - i,
    {
        let acc = &accounts[i];
        match parse_pubkey(acc.pubkey.as_str()) {
            Some(k) => {
                let ia = InstructionAccount { pubkey: k, signer: acc.signer, writable: acc.writable };
                out.push(ia.serialize());
            },
            None => {
                assert(base58_pubkey(accounts@[i as int].pubkey@) is None);
                return Err(CliError::InvalidAccountPubkey);
            },
        }
        i = i + 1;
    }
    assert(byte_vecs_view(out@) =~= spec_encode_accounts(accounts@)->Ok_0);
    assert forall|i: int| 0 <= i < accounts@.len() implies decode_instruction_account(
        #[trigger] out@[i]@,
    ) == Some(
        InstructionAccountView {
            pubkey: base58_pubkey(accounts@[i].pubkey@)->0,
            signer: accounts@[i].signer,
            writable: accounts@[i].writable,
        },
    ) by {
        crate::types::lemma_instruction_account_roundtrip(
            InstructionAccountView {
                pubkey: base58_pubkey(accounts@[i].pubkey@)->0,
                signer: accounts@[i].signer,
                writable: accounts@[i].writable,
            },
        );
    }
    Ok(out)
}

/// What `create-session` knows before it loads the payer's keypair.
pub struct CreateSessionPrep {
    pub program_id: [u8; 32],
    pub instruction_data: Vec<u8>,
    pub instruction_accounts: Vec<Vec<u8>>,
    pub keypair_path: String,
}

/// Checks the command line of `create-session`: the program id, the hex instruction
/// data, the accounts (`None` when their JSON text could not be read), the accounts'
/// keys and the payer's keypair file, failing on the first that is wrong.
pub fn prepare_create_session(
    config: &Config,
    instruction_data: &str,
    accounts: Option<Vec<InstructionAccountJson>>,
    payer_path: Option<String>,
) -> (r: Result<CreateSessionPrep, CliError>)
    ensures
        match spec_mosaic_id(*config) {
            Err(e) => fails_with(r, e),
            Ok(id) => match hex_decode(strip_hex_prefix(instruction_data.spec_bytes())) {
                None => fails_with(r, CliError::InvalidInstructionHex),
                Some(data) => match accounts {
                    None => fails_with(r, CliError::InvalidAccountsJson),
                    Some(accs) => match spec_encode_accounts(accs@) {
                        Err(e) => fails_with(r, e),
                        Ok(encoded) => match spec_keypair_path(payer_path, *config) {
                            Err(e) => fails_with(r, e),
                            Ok(path) => r matches Ok(p) && p.program_id@ == id
                                && p.instruction_data@ == data && byte_vecs_view(
                                p.instruction_accounts@,
                            ) == encoded && p.keypair_path == path,
                        },
                    },
                },
            },
        },
{
    let program_id = get_mosaic_id(config)?;
    let instruction_data = decode_instruction_data(instruction_data)?;
    let accounts = match accounts {
        Some(a) => a,
        None => return Err(CliError::InvalidAccountsJson),
    };
    let instruction_accounts = encode_instruction_accounts(&accounts)?;
    let keypair_path = resolve_keypair_path(payer_path, config)?;
    Ok(CreateSessionPrep { program_id, instruction_data, instruction_accounts, keypair_path })
}

/// The id of the next session: one more than the last id the root has given out.
pub open spec fn spec_next_session_id(root_data: Seq<u8>) -> Result<u16, CliError> {
    match decode_root(root_data) {
        None => Err(CliError::RootUndecodable),
        Some(root) => if root.last_id < u16::MAX {
            Ok((root.last_id + 1) as u16)
        } else {
            Err(CliError::SessionIdOverflow)
        },
    }
}

/// A root stored with last id `n` gives the next session the id `n + 1`; only a root
/// that has given out the largest id refuses a next one.
pub proof fn lemma_next_session_id_follows_last(v: crate::state::RootView)
    requires
        crate::state::root_wf(v),
    ensures
        spec_next_session_id(crate::state::encode_root(v)) == if v.last_id < u16::MAX {
            Ok::<u16, CliError>((v.last_id + 1) as u16)
        } else {
            Err::<u16, CliError>(CliError::SessionIdOverflow)
        },
{
    crate::state::lemma_root_roundtrip(v);
}

/// The id the next session gets, read from the root account's data.
pub fn next_session_id(root_data: &[u8]) -> (r: Result<u16, CliError>)
    ensures
        r == spec_next_session_id(root_data@),
{
    let root = decode_root_account(root_data)?;
    match root.last_id.checked_add(1) {
        Some(id) => Ok(id),
        None => Err(CliError::SessionIdOverflow),
    }
}

/// The instruction that opens a session.
pub open spec fn spec_create_session_instruction(
    program_id: Seq<u8>,
    payer: Seq<u8>,
    root: Seq<u8>,
    signing: Seq<u8>,
    bump: u8,
    instruction_data: Seq<u8>,
    instruction_accounts: Seq<Seq<u8>>,
) -> InstructionView {
    InstructionView {
        program_id,
        accounts: seq![
            signer_writable(payer),
            writable(root),
            writable(signing),
            readonly(zero_key()),
        ],
        data: seq![ProgramIx::CreateSession.spec_tag()] + enc_bytes(instruction_data)
            + enc_byte_vecs(instruction_accounts) + seq![bump],
    }
}

/// The instruction that opens the session at `signing_pda`, paid for by `payer`.
pub fn build_create_session(
    program_id: &[u8; 32],
    payer: &[u8; 32],
    root_pda: &[u8; 32],
    signing_pda: &[u8; 32],
    signing_bump: u8,
    instruction_data: Vec<u8>,
    instruction_accounts: Vec<Vec<u8>>,
) -> (r: Result<Instruction, CliError>)
    ensures
        instruction_data@.len() <= u32::MAX && byte_vecs_wf(byte_vecs_view(instruction_accounts@))
            ==> (r matches Ok(ix) && ix@ == spec_create_session_instruction(
            program_id@,
            payer@,
            root_pda@,
            signing_pda@,
            signing_bump,
            instruction_data@,
            byte_vecs_view(instruction_accounts@),
        )),
        !(instruction_data@.len() <= u32::MAX && byte_vecs_wf(
            byte_vecs_view(instruction_accounts@),
        )) ==> fails_with(r, CliError::DataTooLong),
{
    let ix_data = CreateSessionIxData { instruction_data, instruction_accounts, bump: signing_bump };
    let payload = match ix_data.serialize() {
        Some(b) => b,
        None => return Err(CliError::DataTooLong),
    };
    let data = tagged(ProgramIx::CreateSession.tag(), payload.as_slice());
    let mut accounts: Vec<AccountMeta> = Vec::new();
    accounts.push(AccountMeta::new(*payer, true));
    accounts.push(AccountMeta::new(*root_pda, false));
    accounts.push(AccountMeta::new(*signing_pda, false));
    accounts.push(AccountMeta::new_readonly(system_program(), false));
    let ix = Instruction { program_id: *program_id, accounts, data };
    assert(metas_view(ix.accounts@) =~= seq![
        signer_writable(payer@),
        writable(root_pda@),
        writable(signing_pda@),
        readonly(zero_key()),
    ]);
    assert(ix.data@ =~= spec_create_session_instruction(
        program_id@,
        payer@,
        root_pda@,
        signing_pda@,
        signing_bump,
        ix_data.instruction_data@,
        byte_vecs_view(ix_data.instruction_accounts@),
    ).data);
    Ok(ix)
}

/// The new session's id and address and the instruction that opens it.
pub struct CreateSessionPlan {
    pub session_id: u16,
    pub signing_pda: [u8; 32],
    pub instruction: Instruction,
}

/// Reads the next session id from the root account's data, derives the session's
/// address and builds the instruction that opens it.
pub fn finish_create_session(
    prep: CreateSessionPrep,
    payer: &[u8; 32],
    root_pda: &[u8; 32],
    root_data: &[u8],
) -> (r: Result<CreateSessionPlan, CliError>)
    ensures
        match spec_next_session_id(root_data@) {
            Err(e) => fails_with(r, e),
            Ok(id) => match program_address(session_seeds(root_pda@, id), prep.program_id@) {
                None => fails_with(r, CliError::NoProgramAddress),
                Some((signing, bump)) => if prep.instruction_data@.len() <= u32::MAX
                    && byte_vecs_wf(byte_vecs_view(prep.instruction_accounts@)) {
                    r matches Ok(plan) && plan.session_id == id && plan.signing_pda@ == signing
                        && plan.instruction@ == spec_create_session_instruction(
                        prep.program_id@,
                        payer@,
                        root_pda@,
                        signing,
                        bump,
                        prep.instruction_data@,
                        byte_vecs_view(prep.instruction_accounts@),
                    )
                } else {
                    fails_with(r, CliError::DataTooLong)
                },
            },
        },
{
    let session_id = next_session_id(root_data)?;
    let (signing, bump) = match signing_session_pda(&prep.program_id, root_pda, session_id) {
        Some(x) => x,
        None => return Err(CliError::NoProgramAddress),
    };
    let instruction = build_create_session(
        &prep.program_id,
        payer,
        root_pda,
        &signing,
        bump,
        prep.instruction_data,
        prep.instruction_accounts,
    )?;
    Ok(CreateSessionPlan { session_id, signing_pda: signing, instruction })
}

// ---------------------------------------------------------------------------
// Commands on one session: sign, execute, view-session, close-session

/// The root account's address and the address of one session with its bump.
pub struct SessionAddresses {
    pub root_pda: [u8; 32],
    pub signing_pda: [u8; 32],
    pub signing_bump: u8,
}

/// The root account's address, then the address of session `session_id` under it.
pub fn session_addresses(program_id: &[u8; 32], session_id: u16) -> (r: Result<
    SessionAddresses,
    CliError,
>)
    ensures
        match program_address(root_seeds(), program_id@) {
            None => fails_with(r, CliError::NoProgramAddress),
            Some((root, _)) => match program_address(session_seeds(root, session_id), program_id@) {
                None => fails_with(r, CliError::NoProgramAddress),
                Some((signing, bump)) => r matches Ok(a) && a.root_pda@ == root && a.signing_pda@
                    == signing && a.signing_bump == bump,
            },
        },
{
    let (root, _) = match root_pda(program_id) {
        Some(x) => x,
        None => return Err(CliError::NoProgramAddress),
    };
    let (signing, bump) = match signing_session_pda(program_id, &root, session_id) {
        Some(x) => x,
        None => return Err(CliError::NoProgramAddress),
    };
    Ok(SessionAddresses { root_pda: root, signing_pda: signing, signing_bump: bump })
}

/// The instruction by which `signer` approves a session.
pub open spec fn spec_sign_instruction(
    program_id: Seq<u8>,
    signer: Seq<u8>,
    root: Seq<u8>,
    signing: Seq<u8>,
    bump: u8,
) -> InstructionView {
    InstructionView {
        program_id,
        accounts: seq![signer_writable(signer), readonly(root), writable(signing), readonly(zero_key())],
        data: seq![ProgramIx::Sign.spec_tag(), bump],
    }
}

/// The instruction by which `signer` approves the session at `addresses`.
pub fn build_sign(program_id: &[u8; 32], signer: &[u8; 32], addresses: &SessionAddresses) -> (r:
    Instruction)
    ensures
        r@ == spec_sign_instruction(
            program_id@,
            signer@,
            addresses.root_pda@,
            addresses.signing_pda@,
            addresses.signing_bump,
        ),
{
    let payload = SignIxData { bump: addresses.signing_bump }.serialize();
    let data = tagged(ProgramIx::Sign.tag(), payload.as_slice());
    let mut accounts: Vec<AccountMeta> = Vec::new();
    accounts.push(AccountMeta::new(*signer, true));
    accounts.push(AccountMeta::new_readonly(addresses.root_pda, false));
    accounts.push(AccountMeta::new(addresses.signing_pda, false));
    accounts.push(AccountMeta::new_readonly(system_program(), false));
    let ix = Instruction { program_id: *program_id, accounts, data };
    assert(metas_view(ix.accounts@) =~= seq![
        signer_writable(signer@),
        readonly(addresses.root_pda@),
        writable(addresses.signing_pda@),
        readonly(zero_key()),
    ]);
    assert(ix.data@ =~= seq![ProgramIx::Sign.spec_tag(), addresses.signing_bump]);
    ix
}

/// The instruction by which `closer` closes a session.
pub open spec fn spec_close_session_instruction(
    program_id: Seq<u8>,
    closer: Seq<u8>,
    root: Seq<u8>,
    signing: Seq<u8>,
    bump: u8,
) -> InstructionView {
    InstructionView {
        program_id,
        accounts: seq![signer_writable(closer), readonly(root), writable(signing), readonly(zero_key())],
        data: seq![ProgramIx::CloseSession.spec_tag(), bump],
    }
}

/// The instruction by which `closer` closes the session at `addresses` and takes back
/// its rent.
pub fn build_close_session(
    program_id: &[u8; 32],
    closer: &[u8; 32],
    addresses: &SessionAddresses,
) -> (r: Instruction)
    ensures
        r@ == spec_close_session_instruction(
            program_id@,
            closer@,
            addresses.root_pda@,
            addresses.signing_pda@,
            addresses.signing_bump,
        ),
{
    let payload = CloseSessionIxData { bump: addresses.signing_bump }.serialize();
    let data = tagged(ProgramIx::CloseSession.tag(), payload.as_slice());
    let mut accounts: Vec<AccountMeta> = Vec::new();
    accounts.push(AccountMeta::new(*closer, true));
    accounts.push(AccountMeta::new_readonly(addresses.root_pda, false));
    accounts.push(AccountMeta::new(addresses.signing_pda, false));
    accounts.push(AccountMeta::new_readonly(system_program(), false));
    let ix = Instruction { program_id: *program_id, accounts, data };
    assert(metas_view(ix.accounts@) =~= seq![
        signer_writable(closer@),
        readonly(addresses.root_pda@),
        writable(addresses.signing_pda@),
        readonly(zero_key()),
    ]);
    assert(ix.data@ =~= seq![ProgramIx::CloseSession.spec_tag(), addresses.signing_bump]);
    ix
}

/// The destination program named in the configuration: none when it names none, so
/// that the root account must be read for it.
pub fn configured_destination(config: &Config) -> (r: Option<Result<[u8; 32], CliError>>)
    ensures
        match config.destination_program {
            None => r is None,
            Some(s) => r matches Some(x) && crate::config::key_result_view(x) == spec_parse_key(
                s@,
                CliError::InvalidDestinationProgram,
            ),
        },
{
    match &config.destination_program {
        None => None,
        Some(s) => Some(parse_destination_program(s.as_str())),
    }
}

/// The destination program that the root account's data names.
pub fn destination_from_root(root_data: &[u8]) -> (r: Result<[u8; 32], CliError>)
    ensures
        crate::config::key_result_view(r) == match decode_root(root_data@) {
            Some(root) => Ok::<Seq<u8>, CliError>(root.destination_program),
            None => Err::<Seq<u8>, CliError>(CliError::RootUndecodable),
        },
{
    let root = decode_root_account(root_data)?;
    Ok(root.destination_program)
}

/// The accounts the stored instruction names, none of them signing; none when one of
/// them cannot be read.
pub open spec fn spec_execute_metas(accounts: Seq<Seq<u8>>) -> Option<Seq<crate::instruction::AccountMetaView>> {
    if forall|i: int|
        0 <= i < accounts.len() ==> (#[trigger] decode_instruction_account(accounts[i])) is Some {
        Some(
            Seq::new(
                accounts.len(),
                |i: int|
                    crate::instruction::AccountMetaView {
                        pubkey: decode_instruction_account(accounts[i])->0.pubkey,
                        is_signer: false,
                        is_writable: decode_instruction_account(accounts[i])->0.writable,
                    },
            ),
        )
    } else {
        None
    }
}

/// The accounts a session stores when it is created come back, in the same order, as
/// the trailing accounts of its execution, each with its key and writable flag and
/// none of them signing.
pub proof fn lemma_stored_accounts_come_back(accounts: Seq<InstructionAccountView>)
    requires
        forall|i: int| 0 <= i < accounts.len() ==> (#[trigger] accounts[i]).pubkey.len() == 32,
    ensures
        spec_execute_metas(accounts.map_values(|a: InstructionAccountView| encode_instruction_account(a)))
            == Some(
            accounts.map_values(
                |a: InstructionAccountView|
                    crate::instruction::AccountMetaView {
                        pubkey: a.pubkey,
                        is_signer: false,
                        is_writable: a.writable,
                    },
            ),
        ),
{
    let stored = accounts.map_values(|a: InstructionAccountView| encode_instruction_account(a));
    assert forall|i: int| 0 <= i < stored.len() implies decode_instruction_account(stored[i])
        == Some(accounts[i]) by {
        crate::types::lemma_instruction_account_roundtrip(accounts[i]);
    }
    assert(forall|i: int|
        0 <= i < stored.len() ==> (#[trigger] decode_instruction_account(stored[i])) is Some);
    assert(spec_execute_metas(stored)->0 =~= accounts.map_values(
        |a: InstructionAccountView|
            crate::instruction::AccountMetaView {
                pubkey: a.pubkey,
                is_signer: false,
                is_writable: a.writable,
            },
    ));
}

/// The fixed accounts of an execution, before those of the stored instruction.
pub open spec fn spec_execute_fixed_accounts(
    executor: Seq<u8>,
    root: Seq<u8>,
    signing: Seq<u8>,
    destination: Seq<u8>,
) -> Seq<crate::instruction::AccountMetaView> {
    seq![
        signer_writable(executor),
        readonly(root),
        writable(signing),
        readonly(zero_key()),
        readonly(destination),
    ]
}

/// The instruction that executes the session whose account holds `session_data`: only
/// an approved session is executed, and its stored accounts follow the fixed ones.
pub fn build_execute(
    program_id: &[u8; 32],
    executor: &[u8; 32],
    addresses: &SessionAddresses,
    destination_program: &[u8; 32],
    session_data: &[u8],
) -> (r: Result<Instruction, CliError>)
    ensures
        match decode_session(session_data@) {
            None => fails_with(r, CliError::SessionUndecodable),
            Some(session) => if session.phase != SigningSessionPhase::Approved {
                fails_with(r, CliError::SessionNotApproved(session.phase))
            } else {
                match spec_execute_metas(session.instruction_accounts) {
                    None => fails_with(r, CliError::InstructionAccountUndecodable),
                    Some(stored) => r matches Ok(ix) && ix@ == (InstructionView {
                        program_id: program_id@,
                        accounts: spec_execute_fixed_accounts(
                            executor@,
                            addresses.root_pda@,
                            addresses.signing_pda@,
                            destination_program@,
                        ) + stored,
                        data: seq![ProgramIx::Execute.spec_tag()],
                    }),
                }
            },
        },
{
    let session = decode_session_account(session_data)?;
    match session.phase {
        SigningSessionPhase::Approved => {},
        _ => return Err(CliError::SessionNotApproved(session.phase)),
    }
    let mut accounts: Vec<AccountMeta> = Vec::new();
    accounts.push(AccountMeta::new(*executor, true));
    accounts.push(AccountMeta::new_readonly(addresses.root_pda, false));
    accounts.push(AccountMeta::new(addresses.signing_pda, false));
    accounts.push(AccountMeta::new_readonly(system_program(), false));
    accounts.push(AccountMeta::new_readonly(*destination_program, false));
    let ghost fixed = spec_execute_fixed_accounts(
        executor@,
        addresses.root_pda@,
        addresses.signing_pda@,
        destination_program@,
    );
    let ghost stored = byte_vecs_view(session.instruction_accounts@);
    assert(metas_view(accounts@) =~= fixed);
    let mut i: usize = 0;
    while i < session.instruction_accounts.len()
        invariant
            i <= session.instruction_accounts@.len(),
            decode_session(session_data@) == Some(session@),
            session.phase == SigningSessionPhase::Approved,
            stored == byte_vecs_view(session.instruction_accounts@),
            metas_view(accounts@).len() == 5 + i,
            metas_view(accounts@).take(5) == fixed,
            forall|j: int|
                0 <= j < i ==> (#[trigger] decode_instruction_account(stored[j])) is Some
                    && metas_view(accounts@)[5 + j] == (crate::instruction::AccountMetaView {
                    pubkey: decode_instruction_account(stored[j])->0.pubkey,
                    is_signer: false,
                    is_writable: decode_instruction_account(stored[j])->0.writable,
                }),
        decreases session.instruction_accounts@.len() - i,
    {
        assert(stored[i as int] == session.instruction_accounts@[i as int]@);
        let ia = match InstructionAccount::try_from_slice(session.instruction_accounts[i].as_slice()) {
            Some(a) => a,
            None => {
                assert(decode_instruction_account(stored[i as int]) is None);
                assert(spec_execute_metas(stored) is None);
                return Err(CliError::InstructionAccountUndecodable);
            },
        };
        let ghost before = metas_view(accounts@);
        if ia.writable {
            accounts.push(AccountMeta::new(ia.pubkey, false));
        } else {
            accounts.push(AccountMeta::new_readonly(ia.pubkey, false));
        }
        assert(metas_view(accounts@) =~= before.push(metas_view(accounts@).last()));
        assert(metas_view(accounts@).take(5) =~= before.take(5));
        i = i + 1;
    }
    let payload = ExecuteIxData {}.serialize();
    let data = tagged(ProgramIx::Execute.tag(), payload.as_slice());
    let ix = Instruction { program_id: *program_id, accounts, data };
    assert(forall|j: int|
        0 <= j < stored.len() ==> (#[trigger] decode_instruction_account(stored[j])) is Some);
    assert(metas_view(ix.accounts@) =~= fixed + spec_execute_metas(stored)->0);
    assert(ix.data@ =~= seq![ProgramIx::Execute.spec_tag()]);
    Ok(ix)
}

} // verus!
