use mosaic_cli::address::{root_pda, signing_session_pda};
use mosaic_cli::commands::{
    build_close_session, build_execute, build_sign, configured_destination, decode_root_account,
    decode_session_account, destination_from_root, finish_create_session, finish_initialize_root,
    next_session_id, prepare_create_session, prepare_initialize_root, session_addresses,
    SessionAddresses,
};
use mosaic_cli::config::Config;
use mosaic_cli::error::CliError;
use mosaic_cli::instruction::{AccountMeta, Instruction};
use mosaic_cli::sessions::collect_sessions;
use mosaic_cli::state::{Root, SigningSession};
use mosaic_cli::types::{InstructionAccount, InstructionAccountJson, SigningSessionPhase};
use solana_sdk::pubkey::Pubkey;

const PROGRAM: [u8; 32] = [42u8; 32];

fn b58(bytes: [u8; 32]) -> String {
    Pubkey::new_from_array(bytes).to_string()
}

fn config() -> Config {
    Config {
        rpc_url: "http://localhost:8899".to_string(),
        mosaic_id: Some(b58(PROGRAM)),
        payer_keypair: Some("/tmp/payer.json".to_string()),
        destination_program: None,
    }
}

fn metas(ix: &Instruction) -> Vec<([u8; 32], bool, bool)> {
    ix.accounts.iter().map(|m: &AccountMeta| (m.pubkey, m.is_signer, m.is_writable)).collect()
}

fn root_bytes(last_id: u16, destination: [u8; 32]) -> Vec<u8> {
    Root {
        operators: vec![[1u8; 32], [2u8; 32]],
        last_id,
        threshold: 2,
        destination_program: destination,
        bump: 250,
    }
    .serialize()
    .unwrap()
}

fn session(id: u16, phase: SigningSessionPhase, accounts: Vec<Vec<u8>>) -> SigningSession {
    SigningSession {
        session_id: id,
        root_pda: [4u8; 32],
        phase,
        approvals: vec![],
        instruction_data: vec![9],
        instruction_accounts: accounts,
        bump: 251,
    }
}

#[test]
fn initialize_root_builds_the_instruction() {
    let ops = vec![b58([1u8; 32]), b58([2u8; 32])];
    let prep = prepare_initialize_root(&config(), &ops, &b58([8u8; 32]), None).unwrap();
    assert_eq!(prep.program_id, PROGRAM);
    assert_eq!(prep.operators, vec![[1u8; 32], [2u8; 32]]);
    assert_eq!(prep.destination_program, [8u8; 32]);
    assert_eq!(prep.keypair_path, "/tmp/payer.json");
    let payer = [5u8; 32];
    let plan = finish_initialize_root(prep, 2, &payer).unwrap();
    let (root, bump) = root_pda(&PROGRAM).unwrap();
    assert_eq!(plan.root_pda, root);
    assert_eq!(plan.instruction.program_id, PROGRAM);
    assert_eq!(
        metas(&plan.instruction),
        vec![(payer, true, true), (root, false, true), ([0u8; 32], false, false)]
    );
    let mut expected = vec![0u8];
    expected.extend(borsh::to_vec(&(vec![[1u8; 32], [2u8; 32]], 2u8, [8u8; 32], bump)).unwrap());
    assert_eq!(plan.instruction.data, expected);
}

#[test]
fn initialize_root_reports_the_first_error() {
    let good = vec![b58([1u8; 32])];
    let bad = vec![b58([1u8; 32]), "xyz0".to_string()];
    let mut no_id = config();
    no_id.mosaic_id = None;
    assert_eq!(
        prepare_initialize_root(&no_id, &bad, "bad", None).err(),
        Some(CliError::MosaicIdNotConfigured)
    );
    assert_eq!(
        prepare_initialize_root(&config(), &bad, "bad", None).err(),
        Some(CliError::InvalidOperatorPubkey)
    );
    assert_eq!(
        prepare_initialize_root(&config(), &good, "bad0", None).err(),
        Some(CliError::InvalidDestinationProgram)
    );
    let mut no_payer = config();
    no_payer.payer_keypair = None;
    assert_eq!(
        prepare_initialize_root(&no_payer, &good, &b58([3u8; 32]), None).err(),
        Some(CliError::KeypairNotSpecified)
    );
    assert!(prepare_initialize_root(&no_payer, &good, &b58([3u8; 32]), Some("/k".to_string())).is_ok());
}

#[test]
fn create_session_builds_the_instruction() {
    let accounts = vec![
        InstructionAccountJson { pubkey: b58([6u8; 32]), signer: false, writable: true },
        InstructionAccountJson { pubkey: b58([7u8; 32]), signer: true, writable: false },
    ];
    let prep = prepare_create_session(&config(), "0x0102", Some(accounts), Some("/k".to_string()))
        .unwrap();
    assert_eq!(prep.instruction_data, vec![1, 2]);
    assert_eq!(prep.instruction_accounts[0], borsh::to_vec(&([6u8; 32], false, true)).unwrap());
    assert_eq!(prep.instruction_accounts[1], borsh::to_vec(&([7u8; 32], true, false)).unwrap());
    assert_eq!(prep.keypair_path, "/k");
    let (root, _) = root_pda(&PROGRAM).unwrap();
    let payer = [5u8; 32];
    let ias = prep.instruction_accounts.clone();
    let plan = finish_create_session(prep, &payer, &root, &root_bytes(41, [8u8; 32])).unwrap();
    assert_eq!(plan.session_id, 42);
    let (signing, bump) = signing_session_pda(&PROGRAM, &root, 42).unwrap();
    assert_eq!(plan.signing_pda, signing);
    assert_eq!(
        metas(&plan.instruction),
        vec![(payer, true, true), (root, false, true), (signing, false, true), ([0u8; 32], false, false)]
    );
    let mut expected = vec![1u8];
    expected.extend(borsh::to_vec(&(vec![1u8, 2], ias, bump)).unwrap());
    assert_eq!(plan.instruction.data, expected);
}

#[test]
fn create_session_reports_the_first_error() {
    let accounts = || Some(vec![InstructionAccountJson { pubkey: "bad0".to_string(), signer: false, writable: false }]);
    assert_eq!(
        prepare_create_session(&config(), "0xzz", None, None).err(),
        Some(CliError::InvalidInstructionHex)
    );
    assert_eq!(
        prepare_create_session(&config(), "0x00", None, None).err(),
        Some(CliError::InvalidAccountsJson)
    );
    assert_eq!(
        prepare_create_session(&config(), "0x00", accounts(), None).err(),
        Some(CliError::InvalidAccountPubkey)
    );
    let mut no_payer = config();
    no_payer.payer_keypair = None;
    assert_eq!(
        prepare_create_session(&no_payer, "", Some(vec![]), None).err(),
        Some(CliError::KeypairNotSpecified)
    );
}

#[test]
fn next_session_id_is_one_more_than_the_last() {
    assert_eq!(next_session_id(&root_bytes(0, [8u8; 32])), Ok(1));
    assert_eq!(next_session_id(&root_bytes(41, [8u8; 32])), Ok(42));
    assert_eq!(next_session_id(&root_bytes(u16::MAX, [8u8; 32])), Err(CliError::SessionIdOverflow));
    assert_eq!(next_session_id(&[1, 2, 3]), Err(CliError::RootUndecodable));
}

#[test]
fn finish_create_session_refuses_a_full_root() {
    let prep = prepare_create_session(&config(), "", Some(vec![]), None).unwrap();
    let (root, _) = root_pda(&PROGRAM).unwrap();
    assert_eq!(
        finish_create_session(prep, &[5u8; 32], &root, &root_bytes(u16::MAX, [8u8; 32])).err(),
        Some(CliError::SessionIdOverflow)
    );
}

#[test]
fn sign_and_close_instructions() {
    let addrs = session_addresses(&PROGRAM, 3).unwrap();
    let (root, _) = root_pda(&PROGRAM).unwrap();
    let (signing, bump) = signing_session_pda(&PROGRAM, &root, 3).unwrap();
    assert_eq!(addrs.root_pda, root);
    assert_eq!(addrs.signing_pda, signing);
    assert_eq!(addrs.signing_bump, bump);
    let signer = [5u8; 32];
    let ix = build_sign(&PROGRAM, &signer, &addrs);
    assert_eq!(ix.data, vec![2, bump]);
    assert_eq!(
        metas(&ix),
        vec![(signer, true, true), (root, false, false), (signing, false, true), ([0u8; 32], false, false)]
    );
    let ix = build_close_session(&PROGRAM, &signer, &addrs);
    assert_eq!(ix.data, vec![4, bump]);
    assert_eq!(
        metas(&ix),
        vec![(signer, true, true), (root, false, false), (signing, false, true), ([0u8; 32], false, false)]
    );
}

fn fixed_addresses() -> SessionAddresses {
    SessionAddresses { root_pda: [10u8; 32], signing_pda: [11u8; 32], signing_bump: 7 }
}

#[test]
fn execute_requires_an_approved_session() {
    let data = session(1, SigningSessionPhase::Active, vec![]).serialize().unwrap();
    let r = build_execute(&PROGRAM, &[5u8; 32], &fixed_addresses(), &[8u8; 32], &data);
    assert_eq!(r.err(), Some(CliError::SessionNotApproved(SigningSessionPhase::Active)));
    let r = build_execute(&PROGRAM, &[5u8; 32], &fixed_addresses(), &[8u8; 32], &[0u8; 3]);
    assert_eq!(r.err(), Some(CliError::SessionUndecodable));
}

#[test]
fn execute_appends_the_stored_accounts() {
    let a = InstructionAccount { pubkey: [20u8; 32], signer: true, writable: true }.serialize();
    let b = InstructionAccount { pubkey: [21u8; 32], signer: false, writable: false }.serialize();
    let data = session(1, SigningSessionPhase::Approved, vec![a, b]).serialize().unwrap();
    let executor = [5u8; 32];
    let ix = build_execute(&PROGRAM, &executor, &fixed_addresses(), &[8u8; 32], &data).unwrap();
    assert_eq!(ix.data, vec![3]);
    assert_eq!(
        metas(&ix),
        vec![
            (executor, true, true),
            ([10u8; 32], false, false),
            ([11u8; 32], false, true),
            ([0u8; 32], false, false),
            ([8u8; 32], false, false),
            ([20u8; 32], false, true),
            ([21u8; 32], false, false),
        ]
    );
}

#[test]
fn execute_refuses_an_unreadable_stored_account() {
    let data = session(1, SigningSessionPhase::Approved, vec![vec![1, 2, 3]]).serialize().unwrap();
    let r = build_execute(&PROGRAM, &[5u8; 32], &fixed_addresses(), &[8u8; 32], &data);
    assert_eq!(r.err(), Some(CliError::InstructionAccountUndecodable));
}

#[test]
fn destination_from_configuration_or_root() {
    let mut c = config();
    assert!(configured_destination(&c).is_none());
    c.destination_program = Some(b58([8u8; 32]));
    assert_eq!(configured_destination(&c), Some(Ok([8u8; 32])));
    c.destination_program = Some("bad0".to_string());
    assert_eq!(configured_destination(&c), Some(Err(CliError::InvalidDestinationProgram)));
    assert_eq!(destination_from_root(&root_bytes(3, [9u8; 32])), Ok([9u8; 32]));
    assert_eq!(destination_from_root(&[]), Err(CliError::RootUndecodable));
}

#[test]
fn decoding_accounts_reports_errors() {
    assert_eq!(decode_root_account(&[0]).err(), Some(CliError::RootUndecodable));
    assert_eq!(decode_session_account(&[0]).err(), Some(CliError::SessionUndecodable));
    assert_eq!(decode_root_account(&root_bytes(3, [9u8; 32])).unwrap().last_id, 3);
}

#[test]
fn sessions_are_listed_by_id_in_stable_order() {
    let s = |id: u16, bump_tag: u8| {
        let mut x = session(id, SigningSessionPhase::Active, vec![]);
        x.bump = bump_tag;
        x.serialize().unwrap()
    };
    let accounts = vec![
        ([1u8; 32], s(5, 1)),
        ([2u8; 32], vec![0u8, 1, 2]),
        ([3u8; 32], s(2, 2)),
        ([4u8; 32], s(5, 3)),
        ([5u8; 32], root_bytes(1, [0u8; 32])),
        ([6u8; 32], s(1, 4)),
        ([7u8; 32], s(2, 5)),
    ];
    let listed = collect_sessions(&accounts);
    let order: Vec<([u8; 32], u16, u8)> =
        listed.iter().map(|(k, s)| (*k, s.session_id, s.bump)).collect();
    assert_eq!(
        order,
        vec![
            ([6u8; 32], 1, 4),
            ([3u8; 32], 2, 2),
            ([7u8; 32], 2, 5),
            ([1u8; 32], 5, 1),
            ([4u8; 32], 5, 3),
        ]
    );
    assert!(collect_sessions(&vec![]).is_empty());
}

#[test]
fn accounts_stored_at_creation_come_back_at_execution() {
    let accounts = vec![
        InstructionAccountJson { pubkey: b58([30u8; 32]), signer: true, writable: false },
        InstructionAccountJson { pubkey: b58([31u8; 32]), signer: false, writable: true },
    ];
    let prep = prepare_create_session(&config(), "ff", Some(accounts), None).unwrap();
    let data = session(1, SigningSessionPhase::Approved, prep.instruction_accounts).serialize().unwrap();
    let ix = build_execute(&PROGRAM, &[5u8; 32], &fixed_addresses(), &[8u8; 32], &data).unwrap();
    let m = metas(&ix);
    assert_eq!(m.len(), 7);
    assert_eq!(m[5], ([30u8; 32], false, false));
    assert_eq!(m[6], ([31u8; 32], false, true));
}
