use borsh::BorshDeserialize;
use mosaic_cli::state::{PackUnpack, Root, SigningSession};
use mosaic_cli::types::{
    CloseSessionIxData, CreateSessionIxData, ExecuteIxData, InitializeRootIxData,
    InstructionAccount, ProgramIx, SignIxData, SigningSessionPhase,
};

fn key(b: u8) -> [u8; 32] {
    [b; 32]
}

fn sample_root() -> Root {
    Root {
        operators: vec![key(1), key(2), key(3)],
        last_id: 7,
        threshold: 2,
        destination_program: key(9),
        bump: 254,
    }
}

fn sample_session(id: u16, phase: SigningSessionPhase) -> SigningSession {
    SigningSession {
        session_id: id,
        root_pda: key(4),
        phase,
        approvals: vec![key(1)],
        instruction_data: vec![0xde, 0xad],
        instruction_accounts: vec![vec![5u8; 34], vec![]],
        bump: 250,
    }
}

#[test]
fn instruction_account_matches_borsh() {
    let ia = InstructionAccount { pubkey: key(7), signer: true, writable: false };
    let ours = ia.serialize();
    let theirs = borsh::to_vec(&(key(7), true, false)).unwrap();
    assert_eq!(ours, theirs);
    assert_eq!(ours.len(), 34);
    assert_eq!(ours[32], 1);
    assert_eq!(ours[33], 0);
}

#[test]
fn instruction_account_reads_back() {
    let ia = InstructionAccount { pubkey: key(3), signer: false, writable: true };
    let back = InstructionAccount::try_from_slice(&ia.serialize()).unwrap();
    assert_eq!(back.pubkey, key(3));
    assert!(!back.signer);
    assert!(back.writable);
}

#[test]
fn instruction_account_refuses_bad_bool_and_extra_bytes() {
    let mut bytes = InstructionAccount { pubkey: key(3), signer: false, writable: true }.serialize();
    bytes[32] = 2;
    assert!(InstructionAccount::try_from_slice(&bytes).is_none());
    let mut longer = InstructionAccount { pubkey: key(3), signer: false, writable: true }.serialize();
    longer.push(0);
    assert!(InstructionAccount::try_from_slice(&longer).is_none());
    assert!(InstructionAccount::try_from_slice(&longer[..33]).is_none());
}

#[test]
fn initialize_root_data_matches_borsh() {
    let d = InitializeRootIxData {
        operators: vec![key(1), key(2)],
        threshold: 2,
        destination_program: key(8),
        bump: 255,
    };
    let ours = d.serialize().unwrap();
    let theirs = borsh::to_vec(&(vec![key(1), key(2)], 2u8, key(8), 255u8)).unwrap();
    assert_eq!(ours, theirs);
    assert_eq!(&ours[..4], &[2, 0, 0, 0]);
}

#[test]
fn create_session_data_matches_borsh() {
    let d = CreateSessionIxData {
        instruction_data: vec![1, 2, 3],
        instruction_accounts: vec![vec![9; 34], vec![7]],
        bump: 200,
    };
    let ours = d.serialize().unwrap();
    let theirs =
        borsh::to_vec(&(vec![1u8, 2, 3], vec![vec![9u8; 34], vec![7u8]], 200u8)).unwrap();
    assert_eq!(ours, theirs);
}

#[test]
fn small_instruction_data() {
    assert_eq!(SignIxData { bump: 3 }.serialize(), vec![3]);
    assert_eq!(CloseSessionIxData { bump: 4 }.serialize(), vec![4]);
    assert!(ExecuteIxData {}.serialize().is_empty());
}

#[test]
fn program_ix_tags() {
    assert_eq!(ProgramIx::InitializeOperators.tag(), 0);
    assert_eq!(ProgramIx::CreateSession.tag(), 1);
    assert_eq!(ProgramIx::Sign.tag(), 2);
    assert_eq!(ProgramIx::Execute.tag(), 3);
    assert_eq!(ProgramIx::CloseSession.tag(), 4);
}

#[test]
fn phase_tags_round_trip() {
    for p in [
        SigningSessionPhase::Uninitialized,
        SigningSessionPhase::Active,
        SigningSessionPhase::Approved,
        SigningSessionPhase::Executed,
    ] {
        assert_eq!(SigningSessionPhase::from_tag(p.tag()), Some(p));
    }
    assert_eq!(SigningSessionPhase::from_tag(4), None);
}

#[test]
fn root_matches_borsh_and_reads_back() {
    let root = sample_root();
    let bytes = root.serialize().unwrap();
    let theirs = borsh::to_vec(&(vec![key(1), key(2), key(3)], 7u16, 2u8, key(9), 254u8)).unwrap();
    assert_eq!(bytes, theirs);
    let back = Root::try_from_slice(&bytes).unwrap();
    assert_eq!(back.operators, root.operators);
    assert_eq!(back.last_id, 7);
    assert_eq!(back.threshold, 2);
    assert_eq!(back.destination_program, key(9));
    assert_eq!(back.bump, 254);
}

#[test]
fn root_refuses_truncated_and_extended_data() {
    let bytes = sample_root().serialize().unwrap();
    assert!(Root::try_from_slice(&bytes[..bytes.len() - 1]).is_none());
    let mut longer = bytes.clone();
    longer.push(1);
    assert!(Root::try_from_slice(&longer).is_none());
    assert!(Root::try_from_slice(&[]).is_none());
    // a length that promises more operators than there are bytes
    let mut lying = bytes.clone();
    lying[0] = 200;
    assert!(Root::try_from_slice(&lying).is_none());
}

#[test]
fn session_matches_borsh_and_reads_back() {
    let s = sample_session(12, SigningSessionPhase::Approved);
    let bytes = s.serialize().unwrap();
    let theirs = borsh::to_vec(&(
        12u16,
        key(4),
        2u8,
        vec![key(1)],
        vec![0xdeu8, 0xad],
        vec![vec![5u8; 34], vec![]],
        250u8,
    ))
    .unwrap();
    assert_eq!(bytes, theirs);
    let back = SigningSession::try_from_slice(&bytes).unwrap();
    assert_eq!(back.session_id, 12);
    assert_eq!(back.root_pda, key(4));
    assert_eq!(back.phase, SigningSessionPhase::Approved);
    assert_eq!(back.approvals, vec![key(1)]);
    assert_eq!(back.instruction_data, vec![0xde, 0xad]);
    assert_eq!(back.instruction_accounts, vec![vec![5u8; 34], vec![]]);
    assert_eq!(back.bump, 250);
}

#[test]
fn session_bytes_are_read_by_borsh() {
    let bytes = sample_session(3, SigningSessionPhase::Executed).serialize().unwrap();
    type Tuple = (u16, [u8; 32], u8, Vec<[u8; 32]>, Vec<u8>, Vec<Vec<u8>>, u8);
    let t = Tuple::try_from_slice(&bytes).unwrap();
    assert_eq!(t.0, 3);
    assert_eq!(t.2, 3);
    assert_eq!(t.6, 250);
}

#[test]
fn session_refuses_unknown_phase() {
    let mut bytes = sample_session(3, SigningSessionPhase::Active).serialize().unwrap();
    bytes[34] = 4;
    assert!(SigningSession::try_from_slice(&bytes).is_none());
}

#[test]
fn pack_returns_data_with_its_length() {
    let root = sample_root();
    let (data, size) = root.pack().unwrap();
    assert_eq!(size, data.len());
    assert_eq!(data, root.serialize().unwrap());
    let s = sample_session(1, SigningSessionPhase::Active);
    let (data, size) = s.pack().unwrap();
    assert_eq!(size, data.len());
}

#[test]
fn unpack_of_pack_is_identity() {
    let root = sample_root();
    let (data, _) = root.pack().unwrap();
    let back = Root::unpack(&data).unwrap();
    assert_eq!(back.operators, root.operators);
    assert_eq!(back.last_id, root.last_id);
    let s = sample_session(9, SigningSessionPhase::Active);
    let (data, _) = s.pack().unwrap();
    let back = SigningSession::unpack(&data).unwrap();
    assert_eq!(back.session_id, 9);
    assert_eq!(back.phase, SigningSessionPhase::Active);
}

#[test]
fn unpack_error_is_invalid_account_data() {
    let err = Root::unpack(&[1, 2, 3]).unwrap_err();
    assert_eq!(err, pinocchio::error::ProgramError::InvalidAccountData);
    let err = SigningSession::unpack(&[]).unwrap_err();
    assert_eq!(err, pinocchio::error::ProgramError::InvalidAccountData);
}
