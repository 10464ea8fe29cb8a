use vstd::prelude::*;

verus! {

/// Domain tag of offer records: the bytes of "offer".
pub open spec fn offer_tag() -> Seq<u8> {
    seq![111u8, 102u8, 102u8, 101u8, 114u8]
}

/// Domain tag of game records: the bytes of "game".
pub open spec fn game_tag() -> Seq<u8> {
    seq![103u8, 97u8, 109u8, 101u8]
}

/// The eight bytes of `x`, least significant first.
pub open spec fn u64_le_bytes(x: u64) -> Seq<u8> {
    seq![
        (x & 0xff) as u8,
        ((x >> 8) & 0xff) as u8,
        ((x >> 16) & 0xff) as u8,
        ((x >> 24) & 0xff) as u8,
        ((x >> 32) & 0xff) as u8,
        ((x >> 40) & 0xff) as u8,
        ((x >> 48) & 0xff) as u8,
        ((x >> 56) & 0xff) as u8,
    ]
}

/// Encode `x` as its eight little-endian bytes.
pub fn u64_to_le_bytes(x: u64) -> (r: Vec<u8>)
    ensures
        r@ == u64_le_bytes(x),
{
    proof {
        assert((x & 0xff) < 256 && ((x >> 8) & 0xff) < 256 && ((x >> 16) & 0xff) < 256 && ((x
            >> 24) & 0xff) < 256 && ((x >> 32) & 0xff) < 256 && ((x >> 40) & 0xff) < 256 && ((x
            >> 48) & 0xff) < 256 && ((x >> 56) & 0xff) < 256) by (bit_vector);
    }
    let mut r: Vec<u8> = Vec::new();
    r.push((x & 0xff) as u8);
    r.push(((x >> 8) & 0xff) as u8);
    r.push(((x >> 16) & 0xff) as u8);
    r.push(((x >> 24) & 0xff) as u8);
    r.push(((x >> 32) & 0xff) as u8);
    r.push(((x >> 40) & 0xff) as u8);
    r.push(((x >> 48) & 0xff) as u8);
    r.push(((x >> 56) & 0xff) as u8);
    proof {
        assert(r@ =~= u64_le_bytes(x));
    }
    r
}

/// The value encoded by eight little-endian bytes.
pub open spec fn u64_from_le_bytes_spec(s: Seq<u8>) -> u64
    recommends
        s.len() == 8,
{
    (s[0] as u64) | ((s[1] as u64) << 8) | ((s[2] as u64) << 16) | ((s[3] as u64) << 24) | ((
    s[4] as u64) << 32) | ((s[5] as u64) << 40) | ((s[6] as u64) << 48) | ((s[7] as u64) << 56)
}

/// The little-endian encoding is lossless: decoding the eight bytes of `x`
/// gives `x` back, so distinct identifiers have distinct seed encodings.
pub proof fn lemma_u64_le_bytes_round_trip(x: u64)
    ensures
        u64_from_le_bytes_spec(u64_le_bytes(x)) == x,
{
    let s = u64_le_bytes(x);
    assert((((x & 0xff) as u8) as u64) | (((((x >> 8) & 0xff) as u8) as u64) << 8) | (((((x
        >> 16) & 0xff) as u8) as u64) << 16) | (((((x >> 24) & 0xff) as u8) as u64) << 24)
        | (((((x >> 32) & 0xff) as u8) as u64) << 32) | (((((x >> 40) & 0xff) as u8) as u64)
        << 40) | (((((x >> 48) & 0xff) as u8) as u64) << 48) | (((((x >> 56)
        & 0xff) as u8) as u64) << 56) == x) by (bit_vector);
    assert(s[0] == (x & 0xff) as u8);
    assert(s[1] == ((x >> 8) & 0xff) as u8);
    assert(s[2] == ((x >> 16) & 0xff) as u8);
    assert(s[3] == ((x >> 24) & 0xff) as u8);
    assert(s[4] == ((x >> 32) & 0xff) as u8);
    assert(s[5] == ((x >> 40) & 0xff) as u8);
    assert(s[6] == ((x >> 48) & 0xff) as u8);
    assert(s[7] == ((x >> 56) & 0xff) as u8);
}

/// The seeds that address the offer record for `id`: the "offer" tag, then
/// the identifier's little-endian bytes.
pub open spec fn offer_seeds_spec(id: u64) -> Seq<Seq<u8>> {
    seq![offer_tag(), u64_le_bytes(id)]
}

/// The seeds that address the game record for `id`: the "game" tag, then
/// the identifier's little-endian bytes.
pub open spec fn game_seeds_spec(id: u64) -> Seq<Seq<u8>> {
    seq![game_tag(), u64_le_bytes(id)]
}

/// Build the seeds that address the offer record for `id`.
pub fn offer_seeds(id: u64) -> (r: Vec<Vec<u8>>)
    ensures
        r.deep_view() == offer_seeds_spec(id),
{
    let mut tag: Vec<u8> = Vec::new();
    tag.push(111);
    tag.push(102);
    tag.push(102);
    tag.push(101);
    tag.push(114);
    let mut r: Vec<Vec<u8>> = Vec::new();
    r.push(tag);
    r.push(u64_to_le_bytes(id));
    proof {
        assert(r.deep_view() =~~= offer_seeds_spec(id));
    }
    r
}

/// Build the seeds that address the game record for `id`.
pub fn game_seeds(id: u64) -> (r: Vec<Vec<u8>>)
    ensures
        r.deep_view() == game_seeds_spec(id),
{
    let mut tag: Vec<u8> = Vec::new();
    tag.push(103);
    tag.push(97);
    tag.push(109);
    tag.push(101);
    let mut r: Vec<Vec<u8>> = Vec::new();
    r.push(tag);
    r.push(u64_to_le_bytes(id));
    proof {
        assert(r.deep_view() =~~= game_seeds_spec(id));
    }
    r
}

/// The derived address and canonical bump for a seed list under a program
/// id: a pure function of the two, `None` only where no bump works or the
/// seeds exceed the derivation's limits.
pub uninterp spec fn pda_of(seeds: Seq<Seq<u8>>, program_id: Seq<u8>) -> Option<(Seq<u8>, u8)>;

/// Relies on solana_pubkey::Pubkey::try_find_program_address: the derived
/// address and bump depend on the seeds and the program id alone; it
/// returns None rather than panicking when no viable bump exists.
#[verifier::external_body]
pub fn get_pda_and_bump(seeds: &Vec<Vec<u8>>, program_id: &Vec<u8>) -> (r: Option<(Vec<u8>, u8)>)
    requires
        program_id@.len() == 32,
    ensures
        r is Some <==> pda_of(seeds.deep_view(), program_id@) is Some,
        r matches Some(p) ==> Some((p.0@, p.1)) == pda_of(seeds.deep_view(), program_id@)
            && p.0@.len() == 32,
{
    let key = solana_pubkey::Pubkey::try_from(program_id.as_slice()).unwrap();
    let seed_slices: Vec<&[u8]> = seeds.iter().map(|s| s.as_slice()).collect();
    solana_pubkey::Pubkey::try_find_program_address(&seed_slices, &key).map(
        |found: (solana_pubkey::Pubkey, u8)| (found.0.to_bytes().to_vec(), found.1),
    )
}

/// Derive the storage address and canonical bump of the offer record for
/// `id` under `program_id`. Reproducible by any caller that knows the id.
pub fn derive_offer_address(id: u64, program_id: &Vec<u8>) -> (r: Option<(Vec<u8>, u8)>)
    requires
        program_id@.len() == 32,
    ensures
        r is Some <==> pda_of(offer_seeds_spec(id), program_id@) is Some,
        r matches Some(p) ==> Some((p.0@, p.1)) == pda_of(offer_seeds_spec(id), program_id@)
            && p.0@.len() == 32,
{
    let seeds = offer_seeds(id);
    get_pda_and_bump(&seeds, program_id)
}

/// Derive the storage address and canonical bump of the game record for
/// `id` under `program_id`. Reproducible by any caller that knows the id.
pub fn derive_game_address(id: u64, program_id: &Vec<u8>) -> (r: Option<(Vec<u8>, u8)>)
    requires
        program_id@.len() == 32,
    ensures
        r is Some <==> pda_of(game_seeds_spec(id), program_id@) is Some,
        r matches Some(p) ==> Some((p.0@, p.1)) == pda_of(game_seeds_spec(id), program_id@)
            && p.0@.len() == 32,
{
    let seeds = game_seeds(id);
    get_pda_and_bump(&seeds, program_id)
}

} // verus!
