use std::str::FromStr;

use mosaic_cli::address::{parse_pubkey, root_pda, signing_session_pda, system_program};
use mosaic_cli::config::{
    default_rpc_url, get_mosaic_id, merge_cli_config, resolve_keypair_path, Cli, Config,
};
use mosaic_cli::error::CliError;
use mosaic_cli::hexdata::decode_instruction_data;
use solana_sdk::pubkey::Pubkey;

fn b58(bytes: [u8; 32]) -> String {
    Pubkey::new_from_array(bytes).to_string()
}

fn config_with(mosaic_id: Option<&str>) -> Config {
    Config {
        rpc_url: "http://localhost:8899".to_string(),
        mosaic_id: mosaic_id.map(|s| s.to_string()),
        payer_keypair: Some("/tmp/payer.json".to_string()),
        destination_program: None,
    }
}

#[test]
fn default_config_points_at_mainnet() {
    assert_eq!(default_rpc_url(), "https://api.mainnet-beta.solana.com");
    let c = Config::default();
    assert_eq!(c.rpc_url, "https://api.mainnet-beta.solana.com");
    assert!(c.mosaic_id.is_none());
    assert!(c.payer_keypair.is_none());
    assert!(c.destination_program.is_none());
}

#[test]
fn command_line_overrides_configuration() {
    let mut c = config_with(Some("old"));
    let cli = Cli { rpc_url: Some("http://other".to_string()), mosaic_id: Some("new".to_string()) };
    merge_cli_config(&mut c, &cli);
    assert_eq!(c.rpc_url, "http://other");
    assert_eq!(c.mosaic_id.as_deref(), Some("new"));
    assert_eq!(c.payer_keypair.as_deref(), Some("/tmp/payer.json"));
}

#[test]
fn absent_options_leave_configuration() {
    let mut c = config_with(Some("kept"));
    merge_cli_config(&mut c, &Cli { rpc_url: None, mosaic_id: None });
    assert_eq!(c.rpc_url, "http://localhost:8899");
    assert_eq!(c.mosaic_id.as_deref(), Some("kept"));
}

#[test]
fn merging_twice_is_merging_once() {
    let cli = Cli { rpc_url: Some("http://x".to_string()), mosaic_id: None };
    let mut once = config_with(Some("id"));
    merge_cli_config(&mut once, &cli);
    let mut twice = config_with(Some("id"));
    merge_cli_config(&mut twice, &cli);
    merge_cli_config(&mut twice, &cli);
    assert_eq!(once.rpc_url, twice.rpc_url);
    assert_eq!(once.mosaic_id, twice.mosaic_id);
}

#[test]
fn mosaic_id_is_parsed_from_base58() {
    let id = [7u8; 32];
    let c = config_with(Some(&b58(id)));
    assert_eq!(get_mosaic_id(&c), Ok(id));
}

#[test]
fn mosaic_id_errors() {
    assert_eq!(get_mosaic_id(&config_with(None)), Err(CliError::MosaicIdNotConfigured));
    assert_eq!(get_mosaic_id(&config_with(Some("not-base58-0OIl"))), Err(CliError::InvalidMosaicId));
    assert_eq!(get_mosaic_id(&config_with(Some("abc"))), Err(CliError::InvalidMosaicId));
}

#[test]
fn parse_pubkey_agrees_with_solana() {
    let text = "Vote111111111111111111111111111111111111111";
    let expected = Pubkey::from_str(text).unwrap().to_bytes();
    assert_eq!(parse_pubkey(text), Some(expected));
    assert_ne!(parse_pubkey(text), Some([0u8; 32]));
    assert_eq!(parse_pubkey(""), None);
}

#[test]
fn system_program_is_all_zeros() {
    assert_eq!(system_program(), [0u8; 32]);
    assert_eq!(Pubkey::new_from_array(system_program()).to_string(), "11111111111111111111111111111111");
}

#[test]
fn keypair_path_prefers_the_command_line() {
    let c = config_with(None);
    assert_eq!(resolve_keypair_path(Some("/a".to_string()), &c), Ok("/a".to_string()));
    assert_eq!(resolve_keypair_path(None, &c), Ok("/tmp/payer.json".to_string()));
    let mut none = config_with(None);
    none.payer_keypair = None;
    assert_eq!(resolve_keypair_path(None, &none), Err(CliError::KeypairNotSpecified));
}

#[test]
fn hex_instruction_data() {
    assert_eq!(decode_instruction_data("0xdeadBEEF"), Ok(vec![0xde, 0xad, 0xbe, 0xef]));
    assert_eq!(decode_instruction_data("deadbeef"), Ok(vec![0xde, 0xad, 0xbe, 0xef]));
    assert_eq!(decode_instruction_data("0x0x12"), Ok(vec![0x12]));
    assert_eq!(decode_instruction_data(""), Ok(vec![]));
    assert_eq!(decode_instruction_data("0x"), Ok(vec![]));
    assert_eq!(decode_instruction_data("abc"), Err(CliError::InvalidInstructionHex));
    assert_eq!(decode_instruction_data("zz"), Err(CliError::InvalidInstructionHex));
    assert_eq!(decode_instruction_data("0X12"), Err(CliError::InvalidInstructionHex));
}

#[test]
fn hex_prefix_is_optional() {
    assert_eq!(decode_instruction_data("0x00ff"), decode_instruction_data("00ff"));
}

#[test]
fn root_address_agrees_with_solana() {
    let program = Pubkey::new_from_array([42u8; 32]);
    let (expected, bump) = Pubkey::find_program_address(&[b"root_pda"], &program);
    let (ours, our_bump) = root_pda(&[42u8; 32]).unwrap();
    assert_eq!(ours, expected.to_bytes());
    assert_eq!(our_bump, bump);
    assert_ne!(ours, [42u8; 32]);
}

#[test]
fn session_address_agrees_with_solana() {
    let program = Pubkey::new_from_array([42u8; 32]);
    let (root, _) = Pubkey::find_program_address(&[b"root_pda"], &program);
    let id: u16 = 258;
    let (expected, bump) = Pubkey::find_program_address(
        &[&root.to_bytes(), &id.to_be_bytes(), b"signing_session_pda"],
        &program,
    );
    let (ours, our_bump) = signing_session_pda(&[42u8; 32], &root.to_bytes(), id).unwrap();
    assert_eq!(ours, expected.to_bytes());
    assert_eq!(our_bump, bump);
    let (other, _) = signing_session_pda(&[42u8; 32], &root.to_bytes(), id + 1).unwrap();
    assert_ne!(ours, other);
}
