//! Laws of NAS protection, octet by octet: which octets are hashed into a key,
//! what enters the keystream and the MAC-I, and where each part of a protected
//! PDU stands.

use vstd::prelude::*;

use crate::crypto::{aes128_cmac_tag, aes128_ctr_keystream, hmac_sha256_tag};
use crate::nas::ie::{NasEeaAlgorithm, NasEiaAlgorithm};
use crate::nas::security::{
    count_prefix, counter_block, eea2, eia2, nas_key, next_count, reconstructed, Direction,
    NasSecurityContextView, ALGO_DISTINGUISHER_NAS_ENC, ALGO_DISTINGUISHER_NAS_INT,
};

verus! {

/// The octets of a COUNT, most significant first, and the octet of BEARER and
/// DIRECTION behind them.
pub open spec fn count_and_bearer(count: u32, bearer: u8, downlink: bool) -> Seq<u8> {
    seq![
        (count / 0x100_0000) as u8,
        (count / 0x1_0000 % 256) as u8,
        (count / 0x100 % 256) as u8,
        (count % 256) as u8,
        (bearer % 32 * 8 + if downlink {
            4int
        } else {
            0
        }) as u8,
    ]
}

/// Whether `payload` is `plain` under the null algorithm, or combined with the
/// AES-128 keystream that starts at COUNT, BEARER, DIRECTION and eleven zeros.
pub open spec fn is_ciphered(
    ctx: NasSecurityContextView,
    count: u32,
    bearer: u8,
    downlink: bool,
    plain: Seq<u8>,
    payload: Seq<u8>,
) -> bool {
    let block = count_and_bearer(count, bearer, downlink) + seq![0u8, 0, 0, 0, 0, 0, 0, 0, 0, 0, 0];
    &&& payload.len() == plain.len()
    &&& forall|i: int|
        0 <= i < plain.len() ==> #[trigger] payload[i] == if ctx.eea is Eea0 {
            plain[i]
        } else {
            plain[i] ^ aes128_ctr_keystream(ctx.k_nas_enc, block, i)
        }
}

/// Whether `mac_i` is zero under the null algorithm, or the first four octets
/// of the AES-128-CMAC of COUNT, BEARER, DIRECTION and the payload.
pub open spec fn is_mac_of(
    ctx: NasSecurityContextView,
    count: u32,
    bearer: u8,
    downlink: bool,
    payload: Seq<u8>,
    mac_i: Seq<u8>,
) -> bool {
    &&& mac_i.len() == 4
    &&& forall|i: int|
        0 <= i < 4 ==> #[trigger] mac_i[i] == if ctx.eia is Eia0 {
            0
        } else {
            aes128_cmac_tag(ctx.k_nas_int, count_and_bearer(count, bearer, downlink) + payload)[i]
        }
}

/// The encryption key is octets 16 to 32 of the HMAC of `15 01 0001 id 0001`
/// under Kasme, the integrity key those of `15 02 0001 id 0001`, the algorithms
/// numbered 0 to 3.
pub proof fn nas_keys_are_second_halves(kasme: Seq<u8>, eea: NasEeaAlgorithm, eia: NasEiaAlgorithm, i: int)
    requires
        0 <= i < 16,
    ensures
        ({
            let enc = nas_key(kasme, ALGO_DISTINGUISHER_NAS_ENC, eea.spec_id());
            let auth = nas_key(kasme, ALGO_DISTINGUISHER_NAS_INT, eia.spec_id());
            let cipher: u8 = match eea {
                NasEeaAlgorithm::Eea0 => 0,
                NasEeaAlgorithm::Eea1 => 1,
                NasEeaAlgorithm::Eea2 => 2,
                NasEeaAlgorithm::Eea3 => 3,
            };
            let integrity: u8 = match eia {
                NasEiaAlgorithm::Eia0 => 0,
                NasEiaAlgorithm::Eia1 => 1,
                NasEiaAlgorithm::Eia2 => 2,
                NasEiaAlgorithm::Eia3 => 3,
            };
            &&& enc.len() == 16 && auth.len() == 16
            &&& enc[i] == hmac_sha256_tag(kasme, seq![0x15u8, 1, 0, 1, cipher, 0, 1])[16 + i]
            &&& auth[i] == hmac_sha256_tag(kasme, seq![0x15u8, 2, 0, 1, integrity, 0, 1])[16 + i]
        }),
{
}

/// An algorithm is recovered from its number.
pub proof fn algorithm_numbers_round_trip(eea: NasEeaAlgorithm, eia: NasEiaAlgorithm)
    ensures
        NasEeaAlgorithm::spec_from_id(eea.spec_id()) == eea,
        NasEiaAlgorithm::spec_from_id(eia.spec_id()) == eia,
{
}

/// The keystream of a message starts at its COUNT, BEARER and DIRECTION, and
/// its MAC-I covers them and the message: of 128-EEA2 and 128-EIA2, and of
/// contexts that use them or the null algorithms.
pub proof fn ciphering_and_integrity(
    ctx: NasSecurityContextView,
    count: u32,
    bearer: u8,
    direction: Direction,
    plain: Seq<u8>,
)
    ensures
        ({
            let downlink = direction == Direction::Downlink;
            &&& is_ciphered(
                (NasSecurityContextView { eea: NasEeaAlgorithm::Eea2, ..ctx }),
                count,
                bearer,
                downlink,
                plain,
                eea2(ctx.k_nas_enc, count, bearer, direction, plain),
            )
            &&& is_mac_of(
                (NasSecurityContextView { eia: NasEiaAlgorithm::Eia2, ..ctx }),
                count,
                bearer,
                downlink,
                plain,
                eia2(ctx.k_nas_int, count, bearer, direction, plain),
            )
            &&& is_ciphered(ctx, count, bearer, downlink, plain, ctx.payload(count, bearer, direction, plain))
            &&& is_mac_of(ctx, count, bearer, downlink, plain, ctx.mac_i(count, bearer, direction, plain))
        }),
{
    let downlink = direction == Direction::Downlink;
    assert(count_prefix(count, bearer, direction) =~= count_and_bearer(count, bearer, downlink));
    assert(counter_block(count, bearer, direction) =~= count_and_bearer(count, bearer, downlink) + seq![
        0u8,
        0,
        0,
        0,
        0,
        0,
        0,
        0,
        0,
        0,
        0,
    ]);
}

/// A received message is opened if and only if integrity protection is off or
/// its MAC-I is that of its octets, and what it holds is what ciphers to it.
pub proof fn only_authentic_messages_are_opened(
    ctx: NasSecurityContextView,
    count: u32,
    bearer: u8,
    direction: Direction,
    mac_i: Seq<u8>,
    ciphertext: Seq<u8>,
)
    ensures
        ({
            let downlink = direction == Direction::Downlink;
            let plain = ctx.opened(count, bearer, direction, mac_i, ciphertext);
            &&& plain is Some <==> ctx.eia is Eia0 || is_mac_of(ctx, count, bearer, downlink, ciphertext, mac_i)
            &&& plain is Some ==> is_ciphered(ctx, count, bearer, downlink, ciphertext, plain->0)
        }),
{
    ciphering_and_integrity(ctx, count, bearer, direction, ciphertext);
    let downlink = direction == Direction::Downlink;
    let right = ctx.mac_i(count, bearer, direction, ciphertext);
    if is_mac_of(ctx, count, bearer, downlink, ciphertext, mac_i) {
        assert(mac_i =~= right);
    }
}

/// A protected PDU is the security header type over the discriminator 7, the
/// MAC-I, the low octet of the COUNT, and the payload, in either direction.
pub proof fn protected_pdu_octets(ctx: NasSecurityContextView, sht: u8, bearer: u8, plain: Seq<u8>)
    ensures
        ({
            let up = ctx.sealed_uplink(sht, bearer, plain);
            let down = ctx.sealed_downlink(sht, bearer, plain);
            &&& up.len() == plain.len() + 6 && down.len() == plain.len() + 6
            &&& up[0] == sht % 16 * 16 + 7 && down[0] == sht % 16 * 16 + 7
            &&& up[5] == ctx.ul_count % 256 && down[5] == ctx.dl_count % 256
            &&& is_ciphered(ctx, ctx.ul_count, bearer, false, plain, up.subrange(6, up.len() as int))
            &&& is_ciphered(ctx, ctx.dl_count, bearer, true, plain, down.subrange(6, down.len() as int))
            &&& is_mac_of(ctx, ctx.ul_count, bearer, false, up.subrange(6, up.len() as int), up.subrange(1, 5))
            &&& is_mac_of(ctx, ctx.dl_count, bearer, true, down.subrange(6, down.len() as int), down.subrange(1, 5))
        }),
{
    let up = ctx.sealed_uplink(sht, bearer, plain);
    let down = ctx.sealed_downlink(sht, bearer, plain);
    ciphering_and_integrity(ctx, ctx.ul_count, bearer, Direction::Uplink, plain);
    ciphering_and_integrity(ctx, ctx.dl_count, bearer, Direction::Downlink, plain);
    let pu = ctx.payload(ctx.ul_count, bearer, Direction::Uplink, plain);
    let pd = ctx.payload(ctx.dl_count, bearer, Direction::Downlink, plain);
    ciphering_and_integrity(ctx, ctx.ul_count, bearer, Direction::Uplink, pu);
    ciphering_and_integrity(ctx, ctx.dl_count, bearer, Direction::Downlink, pd);
    assert(up.subrange(6, up.len() as int) =~= pu);
    assert(down.subrange(6, down.len() as int) =~= pd);
    assert(up.subrange(1, 5) =~= ctx.mac_i(ctx.ul_count, bearer, Direction::Uplink, pu));
    assert(down.subrange(1, 5) =~= ctx.mac_i(ctx.dl_count, bearer, Direction::Downlink, pd));
}

/// Which COUNT a received octet stands for: one that ends in the octet, at or
/// above the tracked COUNT where there is one within 256 of it, and otherwise
/// the octet itself, past the last COUNT of all.
pub proof fn received_count(last: u32, seq: u8)
    ensures
        reconstructed(last, seq) % 256 == seq,
        last <= reconstructed(last, seq) < last + 256 || (last > 0xFFFF_FF00 && reconstructed(last, seq) == seq),
        next_count(last) == (last + 1) % 0x1_0000_0000,
{
}

/// What is taken for plain from a received PDU: it is long enough, not marked
/// as plain, and authentic. Its octets after the sixth are deciphered, and the
/// COUNT of that direction moves to the one after the received one. Otherwise
/// nothing is taken, and nothing changes.
pub proof fn received_pdu_is_opened(ctx: NasSecurityContextView, d: Seq<u8>, bearer: u8)
    ensures
        ({
            let (plain, next) = ctx.unsealed_uplink(d, bearer);
            let count = reconstructed(ctx.ul_count, d[5]);
            let payload = d.subrange(6, d.len() as int);
            &&& plain is Some <==> d.len() >= 6 && d[0] >= 16 && (ctx.eia is Eia0 || is_mac_of(
                ctx,
                count,
                bearer,
                false,
                payload,
                d.subrange(1, 5),
            ))
            &&& plain is Some ==> is_ciphered(ctx, count, bearer, false, payload, plain->0)
            &&& next == NasSecurityContextView {
                ul_count: if plain is Some {
                    ((count + 1) % 0x1_0000_0000) as u32
                } else {
                    ctx.ul_count
                },
                ..ctx
            }
        }),
        ({
            let (plain, next) = ctx.unsealed_downlink(d, bearer);
            let count = reconstructed(ctx.dl_count, d[5]);
            let payload = d.subrange(6, d.len() as int);
            &&& plain is Some <==> d.len() >= 6 && d[0] >= 16 && (ctx.eia is Eia0 || is_mac_of(
                ctx,
                count,
                bearer,
                true,
                payload,
                d.subrange(1, 5),
            ))
            &&& plain is Some ==> is_ciphered(ctx, count, bearer, true, payload, plain->0)
            &&& next == NasSecurityContextView {
                dl_count: if plain is Some {
                    ((count + 1) % 0x1_0000_0000) as u32
                } else {
                    ctx.dl_count
                },
                ..ctx
            }
        }),
{
    let payload = d.subrange(6, d.len() as int);
    let mac_i = d.subrange(1, 5);
    let up = reconstructed(ctx.ul_count, d[5]);
    let down = reconstructed(ctx.dl_count, d[5]);
    only_authentic_messages_are_opened(ctx, up, bearer, Direction::Uplink, mac_i, payload);
    only_authentic_messages_are_opened(ctx, down, bearer, Direction::Downlink, mac_i, payload);
}

} // verus!
