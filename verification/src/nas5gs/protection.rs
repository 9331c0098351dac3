//! Laws of 5G NAS protection, octet by octet.

use vstd::prelude::*;

use crate::crypto::hmac_sha256_tag;
use crate::nas::protection::{ciphering_and_integrity, is_ciphered, is_mac_of, only_authentic_messages_are_opened};
use crate::nas::security::{reconstructed, Direction, NasSecurityContextView};
use crate::nas5gs::codec::{sealed_downlink, sealed_uplink, unsealed_downlink, unsealed_uplink};
use crate::nas5gs::security::fresh_context;

verus! {

/// A fresh context has the second halves of the HMACs of `69 01 0001 id 0001`
/// and `69 02 0001 id 0001` under KAMF for keys, ciphers and authenticates
/// unless the algorithm is number 0, and counts from 0.
pub proof fn fresh_context_is_derived(kamf: Seq<u8>, cipher: u8, integrity: u8, i: int)
    requires
        0 <= i < 16,
    ensures
        ({
            let ctx = fresh_context(kamf, cipher, integrity);
            &&& ctx.k_nas_enc.len() == 16 && ctx.k_nas_int.len() == 16
            &&& ctx.k_nas_enc[i] == hmac_sha256_tag(kamf, seq![0x69u8, 1, 0, 1, cipher, 0, 1])[16 + i]
            &&& ctx.k_nas_int[i] == hmac_sha256_tag(kamf, seq![0x69u8, 2, 0, 1, integrity, 0, 1])[16 + i]
            &&& if cipher == 0 {
                ctx.eea is Eea0
            } else {
                ctx.eea is Eea2
            }
            &&& if integrity == 0 {
                ctx.eia is Eia0
            } else {
                ctx.eia is Eia2
            }
            &&& ctx.ul_count == 0 && ctx.dl_count == 0
        }),
{
}

/// A protected PDU is the discriminator 7E, the security header type, the
/// MAC-I, the low octet of the COUNT, and the payload, in either direction. Its
/// BEARER is 1.
pub proof fn protected_pdu_octets(ctx: NasSecurityContextView, sht: u8, plain: Seq<u8>)
    ensures
        ({
            let up = sealed_uplink(ctx, sht, plain);
            let down = sealed_downlink(ctx, sht, plain);
            &&& up.len() == plain.len() + 7 && down.len() == plain.len() + 7
            &&& up[0] == 0x7E && down[0] == 0x7E
            &&& up[1] == sht % 16 && down[1] == sht % 16
            &&& up[6] == ctx.ul_count % 256 && down[6] == ctx.dl_count % 256
            &&& is_ciphered(ctx, ctx.ul_count, 1, false, plain, up.subrange(7, up.len() as int))
            &&& is_ciphered(ctx, ctx.dl_count, 1, true, plain, down.subrange(7, down.len() as int))
            &&& is_mac_of(ctx, ctx.ul_count, 1, false, up.subrange(7, up.len() as int), up.subrange(2, 6))
            &&& is_mac_of(ctx, ctx.dl_count, 1, true, down.subrange(7, down.len() as int), down.subrange(2, 6))
        }),
{
    let up = sealed_uplink(ctx, sht, plain);
    let down = sealed_downlink(ctx, sht, plain);
    ciphering_and_integrity(ctx, ctx.ul_count, 1, Direction::Uplink, plain);
    ciphering_and_integrity(ctx, ctx.dl_count, 1, Direction::Downlink, plain);
    let pu = ctx.payload(ctx.ul_count, 1, Direction::Uplink, plain);
    let pd = ctx.payload(ctx.dl_count, 1, Direction::Downlink, plain);
    ciphering_and_integrity(ctx, ctx.ul_count, 1, Direction::Uplink, pu);
    ciphering_and_integrity(ctx, ctx.dl_count, 1, Direction::Downlink, pd);
    assert(up.subrange(7, up.len() as int) =~= pu);
    assert(down.subrange(7, down.len() as int) =~= pd);
    assert(up.subrange(2, 6) =~= ctx.mac_i(ctx.ul_count, 1, Direction::Uplink, pu));
    assert(down.subrange(2, 6) =~= ctx.mac_i(ctx.dl_count, 1, Direction::Downlink, pd));
}

/// What is taken for plain from a received PDU: it is long enough, of this
/// protocol, not marked as plain, and authentic. Its octets after the seventh
/// are deciphered, and the COUNT of that direction moves to the one after the
/// received one. Otherwise nothing is taken, and nothing changes.
pub proof fn received_pdu_is_opened(ctx: NasSecurityContextView, d: Seq<u8>)
    ensures
        ({
            let (plain, next) = unsealed_uplink(ctx, d);
            let count = reconstructed(ctx.ul_count, d[6]);
            let payload = d.subrange(7, d.len() as int);
            &&& plain is Some <==> d.len() >= 7 && d[0] == 0x7E && d[1] % 16 != 0 && (ctx.eia is Eia0 || is_mac_of(
                ctx,
                count,
                1,
                false,
                payload,
                d.subrange(2, 6),
            ))
            &&& plain is Some ==> is_ciphered(ctx, count, 1, false, payload, plain->0)
            &&& next == NasSecurityContextView {
                ul_count: if plain is Some {
                    ((count + 1) % 0x1_0000_0000) as u32
                } else {
                    ctx.ul_count
                },
                ..ctx
            }
        }),
        ({
            let (plain, next) = unsealed_downlink(ctx, d);
            let count = reconstructed(ctx.dl_count, d[6]);
            let payload = d.subrange(7, d.len() as int);
            &&& plain is Some <==> d.len() >= 7 && d[0] == 0x7E && d[1] % 16 != 0 && (ctx.eia is Eia0 || is_mac_of(
                ctx,
                count,
                1,
                true,
                payload,
                d.subrange(2, 6),
            ))
            &&& plain is Some ==> is_ciphered(ctx, count, 1, true, payload, plain->0)
            &&& next == NasSecurityContextView {
                dl_count: if plain is Some {
                    ((count + 1) % 0x1_0000_0000) as u32
                } else {
                    ctx.dl_count
                },
                ..ctx
            }
        }),
{
    let payload = d.subrange(7, d.len() as int);
    let mac_i = d.subrange(2, 6);
    let up = reconstructed(ctx.ul_count, d[6]);
    let down = reconstructed(ctx.dl_count, d[6]);
    only_authentic_messages_are_opened(ctx, up, 1, Direction::Uplink, mac_i, payload);
    only_authentic_messages_are_opened(ctx, down, 1, Direction::Downlink, mac_i, payload);
}

} // verus!
