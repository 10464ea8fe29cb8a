use escrow::addresses::{
    derive_game_address, derive_offer_address, game_seeds, get_pda_and_bump, offer_seeds,
    u64_to_le_bytes,
};
use solana_pubkey::Pubkey;

fn program_id_bytes() -> Vec<u8> {
    // An arbitrary but fixed 32-byte program id.
    (1u8..=32u8).collect()
}

#[test]
fn test_u64_to_le_bytes_exact() {
    assert_eq!(
        u64_to_le_bytes(0x0102030405060708),
        vec![0x08, 0x07, 0x06, 0x05, 0x04, 0x03, 0x02, 0x01]
    );
    assert_eq!(u64_to_le_bytes(0), vec![0; 8]);
    assert_eq!(u64_to_le_bytes(u64::MAX), vec![0xff; 8]);
    assert_eq!(u64_to_le_bytes(1), vec![1, 0, 0, 0, 0, 0, 0, 0]);
    assert_eq!(u64_to_le_bytes(77), 77u64.to_le_bytes().to_vec());
}

#[test]
fn test_seed_layout() {
    let seeds = offer_seeds(42);
    assert_eq!(seeds.len(), 2);
    assert_eq!(seeds[0], b"offer".to_vec());
    assert_eq!(seeds[1], 42u64.to_le_bytes().to_vec());

    let seeds = game_seeds(42);
    assert_eq!(seeds.len(), 2);
    assert_eq!(seeds[0], b"game".to_vec());
    assert_eq!(seeds[1], 42u64.to_le_bytes().to_vec());
}

#[test]
fn test_pda_matches_direct_derivation() {
    // The library's derivation must agree with the ledger runtime's own,
    // computed here directly from the outside crate.
    let program = program_id_bytes();
    let program_key = Pubkey::try_from(program.as_slice()).unwrap();
    let id: u64 = 9001;

    let (addr, bump) = derive_offer_address(id, &program).unwrap();
    let (expected_key, expected_bump) =
        Pubkey::find_program_address(&[b"offer", &id.to_le_bytes()], &program_key);
    assert_eq!(addr, expected_key.to_bytes().to_vec());
    assert_eq!(bump, expected_bump);

    let (addr, bump) = derive_game_address(id, &program).unwrap();
    let (expected_key, expected_bump) =
        Pubkey::find_program_address(&[b"game", &id.to_le_bytes()], &program_key);
    assert_eq!(addr, expected_key.to_bytes().to_vec());
    assert_eq!(bump, expected_bump);
}

#[test]
fn test_pda_is_reproducible() {
    let program = program_id_bytes();
    let first = derive_offer_address(5, &program).unwrap();
    let second = derive_offer_address(5, &program).unwrap();
    assert_eq!(first, second);

    let seeds = offer_seeds(5);
    let direct = get_pda_and_bump(&seeds, &program).unwrap();
    assert_eq!(first, direct);
}
