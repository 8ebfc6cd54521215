//! Public keys: reading them from base58 text and deriving the program's addresses.

use std::str::FromStr;

use solana_sdk::pubkey::Pubkey;
use vstd::prelude::*;

use crate::wire::{byte_vecs_view, u16_be};

verus! {

/// The 32 bytes that the base58 text `s` denotes as a Solana public key, if it
/// denotes one.
pub uninterp spec fn base58_pubkey(s: Seq<char>) -> Option<Seq<u8>>;

/// The program derived address of `program_id` for `seeds`, with its bump seed: the
/// first bump from 255 down for which the address lies off the ed25519 curve; none if
/// there is no such bump or the seeds are too many or too long.
pub uninterp spec fn program_address(seeds: Seq<Seq<u8>>, program_id: Seq<u8>) -> Option<
    (Seq<u8>, u8),
>;

/// Calls `Pubkey::from_str` (solana-address): the key is the base58 decoding of `s`,
/// named `base58_pubkey`; the contract claims only that the answer is that name.
#[verifier::external_body]
fn pubkey_from_str(s: &str) -> (r: Option<[u8; 32]>)
    ensures
        match r {
            Some(k) => base58_pubkey(s@) == Some(k@),
            None => base58_pubkey(s@) is None,
        },
{
    Pubkey::from_str(s).ok().map(|k| k.to_bytes())
}

/// Calls `Pubkey::try_find_program_address` (solana-address): the answer is the name
/// `program_address` of the seeds and the program id.
#[verifier::external_body]
fn try_find_program_address(seeds: &Vec<Vec<u8>>, program_id: &[u8; 32]) -> (r: Option<
    ([u8; 32], u8),
>)
    ensures
        match r {
            Some((a, bump)) => program_address(byte_vecs_view(seeds@), program_id@) == Some(
                (a@, bump),
            ),
            None => program_address(byte_vecs_view(seeds@), program_id@) is None,
        },
{
    let refs: Vec<&[u8]> = seeds.iter().map(|s| s.as_slice()).collect();
    Pubkey::try_find_program_address(&refs, &Pubkey::new_from_array(*program_id)).map(
        |(a, bump)| (a.to_bytes(), bump),
    )
}

/// Calls `solana_sdk_ids::system_program::id`: the system program's id is declared as
/// the base58 text of 32 one-digits, which is 32 zero bytes.
#[verifier::external_body]
fn system_program_id() -> (r: [u8; 32])
    ensures
        r@ == zero_key(),
{
    solana_sdk_ids::system_program::id().to_bytes()
}

/// Thirty-two zero bytes.
pub open spec fn zero_key() -> Seq<u8> {
    Seq::new(32, |i: int| 0u8)
}

/// The id of the system program.
pub fn system_program() -> (r: [u8; 32])
    ensures
        r@ == zero_key(),
{
    system_program_id()
}

/// The public key that the base58 text `s` denotes, if any.
pub fn parse_pubkey(s: &str) -> (r: Option<[u8; 32]>)
    ensures
        match r {
            Some(k) => base58_pubkey(s@) == Some(k@),
            None => base58_pubkey(s@) is None,
        },
{
    pubkey_from_str(s)
}

/// The seed of the root account: the bytes of "root_pda".
pub open spec fn root_seed() -> Seq<u8> {
    seq![114u8, 111u8, 111u8, 116u8, 95u8, 112u8, 100u8, 97u8]
}

/// The last seed of a signing session account: the bytes of "signing_session_pda".
pub open spec fn session_seed() -> Seq<u8> {
    seq![
        115u8, 105u8, 103u8, 110u8, 105u8, 110u8, 103u8, 95u8, 115u8, 101u8, 115u8, 115u8,
        105u8, 111u8, 110u8, 95u8, 112u8, 100u8, 97u8,
    ]
}

/// The seeds of the root account.
pub open spec fn root_seeds() -> Seq<Seq<u8>> {
    seq![root_seed()]
}

/// The seeds of a session's account: the root, the id most significant byte first, and
/// the session seed.
pub open spec fn session_seeds(root_pda: Seq<u8>, session_id: u16) -> Seq<Seq<u8>> {
    seq![root_pda, u16_be(session_id), session_seed()]
}

/// The id seed of a session is the id most significant byte first: read back as a
/// big-endian number it is the id, for every id.
pub proof fn lemma_session_id_seed(root_pda: Seq<u8>, session_id: u16)
    ensures
        session_seeds(root_pda, session_id).len() == 3,
        session_seeds(root_pda, session_id)[0] == root_pda,
        session_seeds(root_pda, session_id)[1].len() == 2,
        session_seeds(root_pda, session_id)[1][0] as int * 256 + session_seeds(
            root_pda,
            session_id,
        )[1][1] as int == session_id as int,
        session_seeds(root_pda, session_id)[2] == session_seed(),
{
    crate::wire::lemma_u16_be_value(session_id);
}

/// Distinct session ids give distinct seeds, so each session has its own account.
pub proof fn lemma_session_seeds_distinct(root_pda: Seq<u8>, a: u16, b: u16)
    ensures
        session_seeds(root_pda, a) == session_seeds(root_pda, b) ==> a == b,
{
    if session_seeds(root_pda, a) == session_seeds(root_pda, b) {
        assert(session_seeds(root_pda, a)[1] == u16_be(a));
        assert(session_seeds(root_pda, b)[1] == u16_be(b));
        assert(u16_be(a)[0] == u16_be(b)[0] && u16_be(a)[1] == u16_be(b)[1]);
        assert(((a >> 8) & 0xff) as u8 == ((b >> 8) & 0xff) as u8 && (a & 0xff) as u8 == (b & 0xff) as u8
            ==> a == b) by (bit_vector);
    }
}

fn bytes_of(values: &[u8]) -> (r: Vec<u8>)
    ensures
        r@ == values@,
{
    let mut out: Vec<u8> = Vec::new();
    crate::wire::push_raw(&mut out, values);
    out
}

/// The address of the root account of the program, with its bump.
pub fn root_pda(program_id: &[u8; 32]) -> (r: Option<([u8; 32], u8)>)
    ensures
        match r {
            Some((a, bump)) => program_address(root_seeds(), program_id@) == Some((a@, bump)),
            None => program_address(root_seeds(), program_id@) is None,
        },
{
    let seed = bytes_of(&[114u8, 111u8, 111u8, 116u8, 95u8, 112u8, 100u8, 97u8]);
    let mut seeds: Vec<Vec<u8>> = Vec::new();
    seeds.push(seed);
    assert(byte_vecs_view(seeds@) =~= root_seeds());
    try_find_program_address(&seeds, program_id)
}

/// The address of the account of session `session_id` under the root `root_pda`, with
/// its bump.
pub fn signing_session_pda(program_id: &[u8; 32], root_pda: &[u8; 32], session_id: u16) -> (r:
    Option<([u8; 32], u8)>)
    ensures
        match r {
            Some((a, bump)) => program_address(session_seeds(root_pda@, session_id), program_id@)
                == Some((a@, bump)),
            None => program_address(session_seeds(root_pda@, session_id), program_id@) is None,
        },
{
    let root = bytes_of(root_pda.as_slice());
    let mut id: Vec<u8> = Vec::new();
    id.push(((session_id >> 8) & 0xff) as u8);
    id.push((session_id & 0xff) as u8);
    assert(id@ =~= u16_be(session_id));
    let last = bytes_of(
        &[
            115u8, 105u8, 103u8, 110u8, 105u8, 110u8, 103u8, 95u8, 115u8, 101u8, 115u8, 115u8,
            105u8, 111u8, 110u8, 95u8, 112u8, 100u8, 97u8,
        ],
    );
    let mut seeds: Vec<Vec<u8>> = Vec::new();
    seeds.push(root);
    seeds.push(id);
    seeds.push(last);
    assert(byte_vecs_view(seeds@) =~= session_seeds(root_pda@, session_id));
    try_find_program_address(&seeds, program_id)
}

} // verus!
