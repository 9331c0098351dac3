//! Milenage (TS 35.206): the authentication functions f1 to f5 that a SIM and
//! the network compute alike from a secret key K, the operator's OPc, and a
//! challenge RAND.
//!
//! ```text
//! TEMP  = E(RAND ⊕ OPc)
//! OUT1  = E(TEMP ⊕ rot(IN1 ⊕ OPc, r1) ⊕ c1) ⊕ OPc      MAC-A = OUT1[0..8]
//! OUTn  = E(rot(TEMP ⊕ OPc, rn) ⊕ cn) ⊕ OPc            n = 2, 3, 4
//!         AK = OUT2[0..6]   RES = OUT2[8..16]   CK = OUT3   IK = OUT4
//! ```
//!
//! `E` is AES-128 under K, and IN1 is SQN, AMF, SQN, AMF. The rotations are
//! whole octets.

use vstd::prelude::*;

use crate::crypto::{aes128_block, aes128_encrypt};

verus! {

/// Octet-wise exclusive or of two blocks.
pub open spec fn xor16(a: Seq<u8>, b: Seq<u8>) -> Seq<u8> {
    Seq::new(16, |i: int| a[i] ^ b[i])
}

/// A block rotated by `r` octets towards its start.
pub open spec fn rot16(a: Seq<u8>, r: int) -> Seq<u8> {
    Seq::new(16, |i: int| a[(i + r) % 16])
}

/// The constant whose last octet is `c`.
pub open spec fn c16(c: u8) -> Seq<u8> {
    Seq::new(16, |i: int| if i == 15 { c } else { 0u8 })
}

/// IN1: SQN and AMF, twice.
pub open spec fn in1(sqn: Seq<u8>, amf: Seq<u8>) -> Seq<u8> {
    sqn + amf + sqn + amf
}

pub open spec fn temp(k: Seq<u8>, opc: Seq<u8>, rand: Seq<u8>) -> Seq<u8> {
    aes128_block(k, xor16(rand, opc))
}

pub open spec fn out1(k: Seq<u8>, opc: Seq<u8>, rand: Seq<u8>, sqn: Seq<u8>, amf: Seq<u8>) -> Seq<u8> {
    xor16(aes128_block(k, xor16(temp(k, opc, rand), rot16(xor16(in1(sqn, amf), opc), 8))), opc)
}

/// OUT2, OUT3 and OUT4, by rotation and constant.
pub open spec fn out_n(k: Seq<u8>, opc: Seq<u8>, rand: Seq<u8>, r: int, c: u8) -> Seq<u8> {
    xor16(aes128_block(k, xor16(rot16(xor16(temp(k, opc, rand), opc), r), c16(c))), opc)
}

/// f1: the network's authentication code.
pub open spec fn mac_a(k: Seq<u8>, opc: Seq<u8>, rand: Seq<u8>, sqn: Seq<u8>, amf: Seq<u8>) -> Seq<u8> {
    out1(k, opc, rand, sqn, amf).subrange(0, 8)
}

/// f2: the response to the challenge.
pub open spec fn res(k: Seq<u8>, opc: Seq<u8>, rand: Seq<u8>) -> Seq<u8> {
    out_n(k, opc, rand, 0, 1).subrange(8, 16)
}

/// f3: the cipher key.
pub open spec fn ck(k: Seq<u8>, opc: Seq<u8>, rand: Seq<u8>) -> Seq<u8> {
    out_n(k, opc, rand, 4, 2)
}

/// f4: the integrity key.
pub open spec fn ik(k: Seq<u8>, opc: Seq<u8>, rand: Seq<u8>) -> Seq<u8> {
    out_n(k, opc, rand, 8, 4)
}

/// f5: the anonymity key.
pub open spec fn ak(k: Seq<u8>, opc: Seq<u8>, rand: Seq<u8>) -> Seq<u8> {
    out_n(k, opc, rand, 0, 1).subrange(0, 6)
}

/// SQN, masked with the anonymity key.
pub open spec fn masked_sqn(sqn: Seq<u8>, ak: Seq<u8>) -> Seq<u8> {
    Seq::new(6, |i: int| sqn[i] ^ ak[i])
}

/// AUTN: the masked SQN, the authentication management field, MAC-A.
pub open spec fn autn_octets(sqn: Seq<u8>, ak: Seq<u8>, amf: Seq<u8>, mac_a: Seq<u8>) -> Seq<u8> {
    masked_sqn(sqn, ak) + amf + mac_a
}

/// The SIM recovers SQN from AUTN with the anonymity key.
pub proof fn sqn_is_recovered(sqn: Seq<u8>, ak: Seq<u8>)
    requires
        sqn.len() == 6,
    ensures
        masked_sqn(masked_sqn(sqn, ak), ak) == sqn,
{
    let back = masked_sqn(masked_sqn(sqn, ak), ak);
    assert forall|i: int| 0 <= i < 6 implies back[i] == sqn[i] by {
        crate::crypto::lemma_xor_twice(sqn[i], ak[i]);
    }
    assert(back =~= sqn);
}

/// The block that each of f2 to f5 enciphers: the enciphered challenge, moved
/// by `r` octets, with `c` in its last octet.
pub open spec fn moved_block(k: Seq<u8>, opc: Seq<u8>, rand: Seq<u8>, r: int, c: u8) -> Seq<u8> {
    let e = aes128_block(k, Seq::new(16, |j: int| rand[j] ^ opc[j]));
    Seq::new(
        16,
        |j: int|
            (e[(j + r) % 16] ^ opc[(j + r) % 16]) ^ (if j == 15 {
                c
            } else {
                0
            }),
    )
}

/// Each function octet by octet (TS 35.206): RES and AK are the two ends of the
/// block that is not moved, with constant 1; CK is the block moved by 4 octets,
/// with constant 2; IK that moved by 8, with constant 4. MAC-A is the first
/// half of the block that SQN and the management field enter, swapped by halves.
pub proof fn functions_in_octets(
    k: Seq<u8>,
    opc: Seq<u8>,
    rand: Seq<u8>,
    sqn: Seq<u8>,
    amf: Seq<u8>,
    masking: Seq<u8>,
    i: int,
)
    requires
        sqn.len() == 6,
        amf.len() == 2,
        0 <= i < 16,
    ensures
        ck(k, opc, rand).len() == 16,
        ck(k, opc, rand)[i] == aes128_block(k, moved_block(k, opc, rand, 4, 2))[i] ^ opc[i],
        ik(k, opc, rand).len() == 16,
        ik(k, opc, rand)[i] == aes128_block(k, moved_block(k, opc, rand, 8, 4))[i] ^ opc[i],
        res(k, opc, rand).len() == 8,
        i >= 8 ==> res(k, opc, rand)[i - 8] == aes128_block(k, moved_block(k, opc, rand, 0, 1))[i] ^ opc[i],
        ak(k, opc, rand).len() == 6,
        i < 6 ==> ak(k, opc, rand)[i] == aes128_block(k, moved_block(k, opc, rand, 0, 1))[i] ^ opc[i],
        mac_a(k, opc, rand, sqn, amf).len() == 8,
        i < 8 ==> ({
            let e = aes128_block(k, Seq::new(16, |j: int| rand[j] ^ opc[j]));
            let field = sqn + amf;
            let block = Seq::new(16, |j: int| e[j] ^ (field[j % 8] ^ opc[(j + 8) % 16]));
            mac_a(k, opc, rand, sqn, amf)[i] == aes128_block(k, block)[i] ^ opc[i]
        }),
        masked_sqn(sqn, masking).len() == 6,
        i < 6 ==> masked_sqn(sqn, masking)[i] == sqn[i] ^ masking[i],
        autn_octets(sqn, masking, amf, rand) == masked_sqn(sqn, masking) + amf + rand,
{
    let e = aes128_block(k, Seq::new(16, |j: int| rand[j] ^ opc[j]));
    assert(xor16(rand, opc) =~= Seq::new(16, |j: int| rand[j] ^ opc[j]));
    assert(xor16(rot16(xor16(temp(k, opc, rand), opc), 4), c16(2)) =~= moved_block(k, opc, rand, 4, 2));
    assert(xor16(rot16(xor16(temp(k, opc, rand), opc), 8), c16(4)) =~= moved_block(k, opc, rand, 8, 4));
    assert(xor16(rot16(xor16(temp(k, opc, rand), opc), 0), c16(1)) =~= moved_block(k, opc, rand, 0, 1));
    let field = sqn + amf;
    let block = Seq::new(16, |j: int| e[j] ^ (field[j % 8] ^ opc[(j + 8) % 16]));
    assert forall|j: int| 0 <= j < 16 implies in1(sqn, amf)[(j + 8) % 16] == #[trigger] field[j % 8] by {
    }
    assert(xor16(temp(k, opc, rand), rot16(xor16(in1(sqn, amf), opc), 8)) =~= block);
}

/// An authentication vector for one challenge.
#[derive(Clone, Copy)]
pub struct AuthVector {
    pub res: [u8; 8],
    pub ck: [u8; 16],
    pub ik: [u8; 16],
    pub ak: [u8; 6],
    pub mac_a: [u8; 8],
}

#[verifier::ext_equal]
pub struct AuthVectorView {
    pub res: Seq<u8>,
    pub ck: Seq<u8>,
    pub ik: Seq<u8>,
    pub ak: Seq<u8>,
    pub mac_a: Seq<u8>,
}

impl View for AuthVector {
    type V = AuthVectorView;

    open spec fn view(&self) -> AuthVectorView {
        AuthVectorView { res: self.res@, ck: self.ck@, ik: self.ik@, ak: self.ak@, mac_a: self.mac_a@ }
    }
}

/// The vector that K, OPc, RAND, SQN and the management field give.
pub open spec fn auth_vector(k: Seq<u8>, opc: Seq<u8>, rand: Seq<u8>, sqn: Seq<u8>, amf: Seq<u8>) -> AuthVectorView {
    AuthVectorView {
        res: res(k, opc, rand),
        ck: ck(k, opc, rand),
        ik: ik(k, opc, rand),
        ak: ak(k, opc, rand),
        mac_a: mac_a(k, opc, rand, sqn, amf),
    }
}

impl AuthVector {
    /// AUTN for the SQN that the vector was made with.
    pub fn autn(&self, sqn: &[u8; 6], amf: &[u8; 2]) -> (autn: [u8; 16])
        ensures
            autn@ == autn_octets(sqn@, self.ak@, amf@, self.mac_a@),
    {
        let m = mask_sqn(sqn, &self.ak);
        let a = &self.mac_a;
        let autn: [u8; 16] = [
            m[0],
            m[1],
            m[2],
            m[3],
            m[4],
            m[5],
            amf[0],
            amf[1],
            a[0],
            a[1],
            a[2],
            a[3],
            a[4],
            a[5],
            a[6],
            a[7],
        ];
        assert(autn@ =~= autn_octets(sqn@, self.ak@, amf@, self.mac_a@));
        autn
    }
}

/// SQN, masked with the anonymity key.
pub fn mask_sqn(sqn: &[u8; 6], ak: &[u8; 6]) -> (m: [u8; 6])
    ensures
        m@ == masked_sqn(sqn@, ak@),
{
    let m: [u8; 6] = [
        sqn[0] ^ ak[0],
        sqn[1] ^ ak[1],
        sqn[2] ^ ak[2],
        sqn[3] ^ ak[3],
        sqn[4] ^ ak[4],
        sqn[5] ^ ak[5],
    ];
    assert(m@ =~= masked_sqn(sqn@, ak@));
    m
}

fn xor_blocks(a: &[u8; 16], b: &[u8; 16]) -> (r: [u8; 16])
    ensures
        r@ == xor16(a@, b@),
{
    let mut r: [u8; 16] = [0; 16];
    let mut i: usize = 0;
    while i < 16
        invariant
            i <= 16,
            forall|j: int| 0 <= j < i ==> r@[j] == a@[j] ^ b@[j],
        decreases 16 - i,
    {
        r[i] = a[i] ^ b[i];
        i += 1;
    }
    assert(r@ =~= xor16(a@, b@));
    r
}

fn rotate(a: &[u8; 16], by: usize) -> (r: [u8; 16])
    requires
        by < 16,
    ensures
        r@ == rot16(a@, by as int),
{
    let mut r: [u8; 16] = [0; 16];
    let mut i: usize = 0;
    while i < 16
        invariant
            i <= 16,
            by < 16,
            forall|j: int| 0 <= j < i ==> r@[j] == a@[(j + by) % 16],
        decreases 16 - i,
    {
        r[i] = a[(i + by) % 16];
        i += 1;
    }
    assert(r@ =~= rot16(a@, by as int));
    r
}

/// A SIM's long-term secrets: K and OPc.
#[derive(Clone, Copy)]
pub struct MilenageContext {
    pub k: [u8; 16],
    pub opc: [u8; 16],
}

impl MilenageContext {
    pub fn new(k: [u8; 16], opc: [u8; 16]) -> (ctx: Self)
        ensures
            ctx.k == k,
            ctx.opc == opc,
    {
        MilenageContext { k, opc }
    }

    fn temp(&self, rand: &[u8; 16]) -> (t: [u8; 16])
        ensures
            t@ == temp(self.k@, self.opc@, rand@),
    {
        aes128_encrypt(&self.k, &xor_blocks(rand, &self.opc))
    }

    fn out1(&self, t: &[u8; 16], sqn: &[u8; 6], amf: &[u8; 2], Ghost(rand): Ghost<Seq<u8>>) -> (out: [u8; 16])
        requires
            t@ == temp(self.k@, self.opc@, rand),
        ensures
            out@ == out1(self.k@, self.opc@, rand, sqn@, amf@),
    {
        let s = sqn;
        let input: [u8; 16] = [
            s[0],
            s[1],
            s[2],
            s[3],
            s[4],
            s[5],
            amf[0],
            amf[1],
            s[0],
            s[1],
            s[2],
            s[3],
            s[4],
            s[5],
            amf[0],
            amf[1],
        ];
        assert(input@ =~= in1(sqn@, amf@));
        let rotated = rotate(&xor_blocks(&input, &self.opc), 8);
        xor_blocks(&aes128_encrypt(&self.k, &xor_blocks(t, &rotated)), &self.opc)
    }

    fn out_n(&self, t: &[u8; 16], r: usize, c: u8, Ghost(rand): Ghost<Seq<u8>>) -> (out: [u8; 16])
        requires
            r < 16,
            t@ == temp(self.k@, self.opc@, rand),
        ensures
            out@ == out_n(self.k@, self.opc@, rand, r as int, c),
    {
        let mut constant: [u8; 16] = [0; 16];
        constant[15] = c;
        assert(constant@ =~= c16(c));
        let rotated = rotate(&xor_blocks(t, &self.opc), r);
        xor_blocks(&aes128_encrypt(&self.k, &xor_blocks(&rotated, &constant)), &self.opc)
    }

    /// The authentication vector for a given challenge.
    pub fn generate_vector_with_rand(&self, sqn: &[u8; 6], amf: &[u8; 2], rand: &[u8; 16]) -> (v: AuthVector)
        ensures
            v@ == auth_vector(self.k@, self.opc@, rand@, sqn@, amf@),
    {
        let t = self.temp(rand);
        let o1 = self.out1(&t, sqn, amf, Ghost(rand@));
        let o2 = self.out_n(&t, 0, 1, Ghost(rand@));
        let v = AuthVector {
            res: [o2[8], o2[9], o2[10], o2[11], o2[12], o2[13], o2[14], o2[15]],
            ck: self.out_n(&t, 4, 2, Ghost(rand@)),
            ik: self.out_n(&t, 8, 4, Ghost(rand@)),
            ak: [o2[0], o2[1], o2[2], o2[3], o2[4], o2[5]],
            mac_a: [o1[0], o1[1], o1[2], o1[3], o1[4], o1[5], o1[6], o1[7]],
        };
        assert(v@ =~= auth_vector(self.k@, self.opc@, rand@, sqn@, amf@));
        v
    }
}

} // verus!
