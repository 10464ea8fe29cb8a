use vstd::prelude::*;

use crate::addresses::{u64_from_le_bytes_spec, u64_le_bytes, u64_to_le_bytes};
use crate::game::Game;
use crate::offer::Offer;

verus! {

/// The eight tag bytes that open a persisted offer record.
pub open spec fn offer_record_tag() -> Seq<u8> {
    seq![111u8, 102u8, 102u8, 101u8, 114u8, 114u8, 101u8, 99u8]
}

/// The eight tag bytes that open a persisted game record.
pub open spec fn game_record_tag() -> Seq<u8> {
    seq![103u8, 97u8, 109u8, 101u8, 114u8, 101u8, 99u8, 100u8]
}

/// A timestamp reinterpreted as its unsigned two's-complement bits.
pub open spec fn i64_bits(x: i64) -> u64 {
    if x >= 0 {
        x as u64
    } else {
        (x + 0x1_0000_0000_0000_0000) as u64
    }
}

/// The timestamp whose unsigned two's-complement bits are `u`.
pub open spec fn i64_from_bits(u: u64) -> i64 {
    if u < 0x8000_0000_0000_0000 {
        u as i64
    } else {
        (u - 0x1_0000_0000_0000_0000) as i64
    }
}

/// The two reinterpretations invert each other.
pub proof fn lemma_i64_bits_round_trip(x: i64)
    ensures
        i64_from_bits(i64_bits(x)) == x,
{
}

/// Reinterpret a timestamp as its unsigned two's-complement bits.
pub fn i64_to_bits(x: i64) -> (r: u64)
    ensures
        r == i64_bits(x),
{
    if x >= 0 {
        x as u64
    } else {
        ((x as i128) + 0x1_0000_0000_0000_0000i128) as u64
    }
}

/// Recover a timestamp from its unsigned two's-complement bits.
pub fn i64_of_bits(u: u64) -> (r: i64)
    ensures
        r == i64_from_bits(u),
{
    if u < 0x8000_0000_0000_0000 {
        u as i64
    } else {
        ((u as i128) - 0x1_0000_0000_0000_0000i128) as i64
    }
}

/// A flag persisted as one byte: 1 for set, 0 for clear.
pub open spec fn bool_byte(b: bool) -> u8 {
    if b {
        1u8
    } else {
        0u8
    }
}

/// The persisted layout of an offer record: the fixed-width tag, then the
/// fields in declaration order, integers little-endian.
pub open spec fn offer_record_bytes_spec(o: Offer) -> Seq<u8> {
    offer_record_tag() + u64_le_bytes(o.id) + u64_le_bytes(o.maker) + u64_le_bytes(o.token_mint_a)
        + u64_le_bytes(o.token_mint_b) + u64_le_bytes(o.token_b_wanted_amount) + seq![o.bump]
}

/// The persisted layout of a game record: the fixed-width tag, then the
/// fields in declaration order, integers little-endian, flags one byte.
pub open spec fn game_record_bytes_spec(g: Game) -> Seq<u8> {
    game_record_tag() + u64_le_bytes(g.id) + u64_le_bytes(g.player_a) + u64_le_bytes(g.player_b)
        + u64_le_bytes(g.authority) + u64_le_bytes(g.stake_lamports) + seq![
        bool_byte(g.a_deposited),
        bool_byte(g.b_deposited),
        g.winner,
    ] + u64_le_bytes(i64_bits(g.expiry_ts)) + seq![g.bump]
}

/// Append the eight little-endian bytes of `x` to `buf`.
fn push_u64_le(buf: &mut Vec<u8>, x: u64)
    ensures
        final(buf)@ == old(buf)@ + u64_le_bytes(x),
{
    let mut bytes = u64_to_le_bytes(x);
    buf.append(&mut bytes);
}

/// Serialize an offer record into its persisted layout.
pub fn offer_record_bytes(o: &Offer) -> (r: Vec<u8>)
    ensures
        r@ == offer_record_bytes_spec(*o),
{
    let mut r: Vec<u8> = Vec::new();
    r.push(111);
    r.push(102);
    r.push(102);
    r.push(101);
    r.push(114);
    r.push(114);
    r.push(101);
    r.push(99);
    proof {
        assert(r@ =~= offer_record_tag());
    }
    push_u64_le(&mut r, o.id);
    push_u64_le(&mut r, o.maker);
    push_u64_le(&mut r, o.token_mint_a);
    push_u64_le(&mut r, o.token_mint_b);
    push_u64_le(&mut r, o.token_b_wanted_amount);
    r.push(o.bump);
    proof {
        assert(r@ =~= offer_record_bytes_spec(*o));
    }
    r
}

/// Serialize a game record into its persisted layout.
pub fn game_record_bytes(g: &Game) -> (r: Vec<u8>)
    ensures
        r@ == game_record_bytes_spec(*g),
{
    let mut r: Vec<u8> = Vec::new();
    r.push(103);
    r.push(97);
    r.push(109);
    r.push(101);
    r.push(114);
    r.push(101);
    r.push(99);
    r.push(100);
    proof {
        assert(r@ =~= game_record_tag());
    }
    push_u64_le(&mut r, g.id);
    push_u64_le(&mut r, g.player_a);
    push_u64_le(&mut r, g.player_b);
    push_u64_le(&mut r, g.authority);
    push_u64_le(&mut r, g.stake_lamports);
    r.push(if g.a_deposited {
        1
    } else {
        0
    });
    r.push(if g.b_deposited {
        1
    } else {
        0
    });
    r.push(g.winner);
    push_u64_le(&mut r, i64_to_bits(g.expiry_ts));
    r.push(g.bump);
    proof {
        assert(r@ =~= game_record_bytes_spec(*g));
    }
    r
}

/// Read the little-endian integer at `at` in `buf`.
fn read_u64_le(buf: &Vec<u8>, at: usize) -> (r: u64)
    requires
        at + 8 <= buf@.len(),
    ensures
        r == u64_from_le_bytes_spec(buf@.subrange(at as int, at as int + 8)),
{
    let n = buf.len();
    proof {
        assert(at + 8 <= n);
    }
    let b0 = buf[at] as u64;
    let b1 = buf[at + 1] as u64;
    let b2 = buf[at + 2] as u64;
    let b3 = buf[at + 3] as u64;
    let b4 = buf[at + 4] as u64;
    let b5 = buf[at + 5] as u64;
    let b6 = buf[at + 6] as u64;
    let b7 = buf[at + 7] as u64;
    let r = b0 | (b1 << 8) | (b2 << 16) | (b3 << 24) | (b4 << 32) | (b5 << 40) | (b6 << 48) | (b7
        << 56);
    proof {
        let s = buf@.subrange(at as int, at as int + 8);
        assert(s[0] == buf@[at as int]);
        assert(s[1] == buf@[at as int + 1]);
        assert(s[2] == buf@[at as int + 2]);
        assert(s[3] == buf@[at as int + 3]);
        assert(s[4] == buf@[at as int + 4]);
        assert(s[5] == buf@[at as int + 5]);
        assert(s[6] == buf@[at as int + 6]);
        assert(s[7] == buf@[at as int + 7]);
    }
    r
}

/// Parse a persisted offer record; `None` on a wrong length or tag. The
/// one parse that succeeds is of the exact layout `offer_record_bytes`
/// writes, and it returns the record serialized.
pub fn parse_offer_record(buf: &Vec<u8>) -> (r: Option<Offer>)
    ensures
        match r {
            Some(o) => buf@ == offer_record_bytes_spec(o),
            None => forall|o: Offer| buf@ != offer_record_bytes_spec(o),
        },
{
    if buf.len() != 49 {
        proof {
            assert forall|o: Offer| buf@ != offer_record_bytes_spec(o) by {
                assert(offer_record_bytes_spec(o).len() == 49);
            }
        }
        return None;
    }
    if !(buf[0] == 111 && buf[1] == 102 && buf[2] == 102 && buf[3] == 101 && buf[4] == 114
        && buf[5] == 114 && buf[6] == 101 && buf[7] == 99) {
        proof {
            assert forall|o: Offer| buf@ != offer_record_bytes_spec(o) by {
                let s = offer_record_bytes_spec(o);
                assert(s[0] == 111 && s[1] == 102 && s[2] == 102 && s[3] == 101 && s[4] == 114
                    && s[5] == 114 && s[6] == 101 && s[7] == 99);
            }
        }
        return None;
    }
    let id = read_u64_le(buf, 8);
    let maker = read_u64_le(buf, 16);
    let token_mint_a = read_u64_le(buf, 24);
    let token_mint_b = read_u64_le(buf, 32);
    let token_b_wanted_amount = read_u64_le(buf, 40);
    let bump = buf[48];
    let o = Offer { id, maker, token_mint_a, token_mint_b, token_b_wanted_amount, bump };
    proof {
        lemma_offer_parse_exact(buf@, o);
    }
    Some(o)
}

/// Where a 49-byte buffer opens with the offer tag and each field decodes
/// to `o`'s fields, the buffer is exactly `o`'s serialization.
proof fn lemma_offer_parse_exact(b: Seq<u8>, o: Offer)
    requires
        b.len() == 49,
        b[0] == 111 && b[1] == 102 && b[2] == 102 && b[3] == 101 && b[4] == 114 && b[5] == 114
            && b[6] == 101 && b[7] == 99,
        o.id == u64_from_le_bytes_spec(b.subrange(8, 16)),
        o.maker == u64_from_le_bytes_spec(b.subrange(16, 24)),
        o.token_mint_a == u64_from_le_bytes_spec(b.subrange(24, 32)),
        o.token_mint_b == u64_from_le_bytes_spec(b.subrange(32, 40)),
        o.token_b_wanted_amount == u64_from_le_bytes_spec(b.subrange(40, 48)),
        o.bump == b[48],
    ensures
        b == offer_record_bytes_spec(o),
{
    lemma_le_decode_unique(b.subrange(8, 16), o.id);
    lemma_le_decode_unique(b.subrange(16, 24), o.maker);
    lemma_le_decode_unique(b.subrange(24, 32), o.token_mint_a);
    lemma_le_decode_unique(b.subrange(32, 40), o.token_mint_b);
    lemma_le_decode_unique(b.subrange(40, 48), o.token_b_wanted_amount);
    assert(b =~= offer_record_bytes_spec(o));
}

/// Eight bytes that decode to `x` are exactly `x`'s encoding: the
/// little-endian layout has one representation per value.
pub proof fn lemma_le_decode_unique(s: Seq<u8>, x: u64)
    requires
        s.len() == 8,
        u64_from_le_bytes_spec(s) == x,
    ensures
        s == u64_le_bytes(x),
{
    let b0 = s[0];
    let b1 = s[1];
    let b2 = s[2];
    let b3 = s[3];
    let b4 = s[4];
    let b5 = s[5];
    let b6 = s[6];
    let b7 = s[7];
    assert(({
        let y = (b0 as u64) | ((b1 as u64) << 8) | ((b2 as u64) << 16) | ((b3 as u64) << 24) | ((
        b4 as u64) << 32) | ((b5 as u64) << 40) | ((b6 as u64) << 48) | ((b7 as u64) << 56);
        (y & 0xff) as u8 == b0 && ((y >> 8) & 0xff) as u8 == b1 && ((y >> 16) & 0xff) as u8 == b2
            && ((y >> 24) & 0xff) as u8 == b3 && ((y >> 32) & 0xff) as u8 == b4 && ((y >> 40)
            & 0xff) as u8 == b5 && ((y >> 48) & 0xff) as u8 == b6 && ((y >> 56) & 0xff) as u8
            == b7
    })) by (bit_vector);
    assert(s =~= u64_le_bytes(x));
}

/// Parse a persisted game record; `None` on a wrong length, tag, or flag
/// byte. The parses that succeed are exactly of the layout
/// `game_record_bytes` writes, and return the record serialized.
pub fn parse_game_record(buf: &Vec<u8>) -> (r: Option<Game>)
    ensures
        match r {
            Some(g) => buf@ == game_record_bytes_spec(g),
            None => forall|g: Game| buf@ != game_record_bytes_spec(g),
        },
{
    if buf.len() != 60 {
        proof {
            assert forall|g: Game| buf@ != game_record_bytes_spec(g) by {
                assert(game_record_bytes_spec(g).len() == 60);
            }
        }
        return None;
    }
    if !(buf[0] == 103 && buf[1] == 97 && buf[2] == 109 && buf[3] == 101 && buf[4] == 114 && buf[5]
        == 101 && buf[6] == 99 && buf[7] == 100) {
        proof {
            assert forall|g: Game| buf@ != game_record_bytes_spec(g) by {
                let s = game_record_bytes_spec(g);
                assert(s[0] == 103 && s[1] == 97 && s[2] == 109 && s[3] == 101 && s[4] == 114
                    && s[5] == 101 && s[6] == 99 && s[7] == 100);
            }
        }
        return None;
    }
    let a_flag = buf[48];
    let b_flag = buf[49];
    if !(a_flag == 0 || a_flag == 1) || !(b_flag == 0 || b_flag == 1) {
        proof {
            assert forall|g: Game| buf@ != game_record_bytes_spec(g) by {
                let s = game_record_bytes_spec(g);
                assert(s[48] == bool_byte(g.a_deposited) && s[49] == bool_byte(g.b_deposited));
            }
        }
        return None;
    }
    let id = read_u64_le(buf, 8);
    let player_a = read_u64_le(buf, 16);
    let player_b = read_u64_le(buf, 24);
    let authority = read_u64_le(buf, 32);
    let stake_lamports = read_u64_le(buf, 40);
    let winner = buf[50];
    let expiry_ts = i64_of_bits(read_u64_le(buf, 51));
    let bump = buf[59];
    let g = Game {
        id,
        player_a,
        player_b,
        authority,
        stake_lamports,
        a_deposited: a_flag == 1,
        b_deposited: b_flag == 1,
        winner,
        expiry_ts,
        bump,
    };
    proof {
        lemma_game_parse_exact(buf@, g);
    }
    Some(g)
}

/// Where a 60-byte buffer opens with the game tag, carries valid flag
/// bytes and each field decodes to `g`'s fields, the buffer is exactly
/// `g`'s serialization.
proof fn lemma_game_parse_exact(b: Seq<u8>, g: Game)
    requires
        b.len() == 60,
        b[0] == 103 && b[1] == 97 && b[2] == 109 && b[3] == 101 && b[4] == 114 && b[5] == 101
            && b[6] == 99 && b[7] == 100,
        g.id == u64_from_le_bytes_spec(b.subrange(8, 16)),
        g.player_a == u64_from_le_bytes_spec(b.subrange(16, 24)),
        g.player_b == u64_from_le_bytes_spec(b.subrange(24, 32)),
        g.authority == u64_from_le_bytes_spec(b.subrange(32, 40)),
        g.stake_lamports == u64_from_le_bytes_spec(b.subrange(40, 48)),
        b[48] == 0 || b[48] == 1,
        b[49] == 0 || b[49] == 1,
        g.a_deposited == (b[48] == 1),
        g.b_deposited == (b[49] == 1),
        g.winner == b[50],
        g.expiry_ts == i64_from_bits(u64_from_le_bytes_spec(b.subrange(51, 59))),
        g.bump == b[59],
    ensures
        b == game_record_bytes_spec(g),
{
    lemma_le_decode_unique(b.subrange(8, 16), g.id);
    lemma_le_decode_unique(b.subrange(16, 24), g.player_a);
    lemma_le_decode_unique(b.subrange(24, 32), g.player_b);
    lemma_le_decode_unique(b.subrange(32, 40), g.authority);
    lemma_le_decode_unique(b.subrange(40, 48), g.stake_lamports);
    lemma_le_decode_unique(b.subrange(51, 59), i64_bits(g.expiry_ts));
    assert(b =~= game_record_bytes_spec(g));
}

} // verus!
