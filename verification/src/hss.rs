//! The subscriber database: long-term keys, and the authentication vectors
//! made from them.

use std::collections::HashMap;

use vstd::prelude::*;
use vstd::std_specs::hash::*;
use vstd::string::StringSliceAdditionalSpecFns;

use crate::milenage::{auth_vector, AuthVector, AuthVectorView, MilenageContext};

verus! {

/// The authentication management field of every vector: the bit that marks
/// vectors for LTE and 5G.
pub const MILENAGE_AMF_FIELD: [u8; 2] = [0x80, 0x00];

/// SQN counts modulo 2^48.
pub const SQN_MODULUS: u64 = 0x1_0000_0000_0000;

pub open spec fn amf_field() -> Seq<u8> {
    seq![0x80u8, 0x00]
}

/// A sequence number in six octets, big-endian.
pub open spec fn sqn_octets(sqn: u64) -> Seq<u8> {
    seq![
        (sqn / 0x100_0000_0000 % 256) as u8,
        (sqn / 0x1_0000_0000 % 256) as u8,
        (sqn / 0x100_0000 % 256) as u8,
        (sqn / 0x1_0000 % 256) as u8,
        (sqn / 0x100 % 256) as u8,
        (sqn % 256) as u8,
    ]
}

/// Different sequence numbers have different octets.
pub proof fn sqn_octets_are_separate(a: u64, b: u64)
    requires
        a < SQN_MODULUS,
        b < SQN_MODULUS,
        sqn_octets(a) == sqn_octets(b),
    ensures
        a == b,
{
    let x = sqn_octets(a);
    let y = sqn_octets(b);
    assert(x[0] == y[0] && x[1] == y[1] && x[2] == y[2] && x[3] == y[3] && x[4] == y[4] && x[5] == y[5]);
    assert(a == b) by (bit_vector)
        requires
            a < 0x1_0000_0000_0000,
            b < 0x1_0000_0000_0000,
            a / 0x100_0000_0000 % 256 == b / 0x100_0000_0000 % 256,
            a / 0x1_0000_0000 % 256 == b / 0x1_0000_0000 % 256,
            a / 0x100_0000 % 256 == b / 0x100_0000 % 256,
            a / 0x1_0000 % 256 == b / 0x1_0000 % 256,
            a / 0x100 % 256 == b / 0x100 % 256,
            a % 256 == b % 256,
    ;
}

fn sqn_to_octets(sqn: u64) -> (a: [u8; 6])
    ensures
        a@ == sqn_octets(sqn),
{
    let a: [u8; 6] = [
        (sqn / 0x100_0000_0000 % 256) as u8,
        (sqn / 0x1_0000_0000 % 256) as u8,
        (sqn / 0x100_0000 % 256) as u8,
        (sqn / 0x1_0000 % 256) as u8,
        (sqn / 0x100 % 256) as u8,
        (sqn % 256) as u8,
    ];
    assert(a@ =~= sqn_octets(sqn));
    a
}

// ── Keys in hexadecimal ───────────────────────────────────────────────────────

/// Why a key in hexadecimal was refused.
#[derive(Debug, Clone, Copy, PartialEq, Eq, Structural)]
pub enum KeyFormatError {
    /// A key is 32 digits; this many octets of text were given.
    WrongLength { got: usize },
    /// The octet at this position is no hexadecimal digit.
    NotHexadecimal { position: usize },
}

/// The value of a hexadecimal digit.
pub open spec fn hex_value(c: u8) -> Option<u8> {
    if 0x30 <= c <= 0x39 {
        Some((c - 0x30) as u8)
    } else if 0x61 <= c <= 0x66 {
        Some((c - 0x57) as u8)
    } else if 0x41 <= c <= 0x46 {
        Some((c - 0x37) as u8)
    } else {
        None
    }
}

/// The 16 octets that 32 hexadecimal digits denote.
pub open spec fn hex_key(s: Seq<u8>) -> Seq<u8> {
    Seq::new(16, |i: int| (hex_value(s[2 * i])->0 * 16 + hex_value(s[2 * i + 1])->0) as u8)
}

/// `position` is the first that holds no hexadecimal digit.
pub open spec fn first_non_hex(s: Seq<u8>, position: int) -> bool {
    &&& 0 <= position < s.len()
    &&& hex_value(s[position]) is None
    &&& forall|j: int| 0 <= j < position ==> hex_value(#[trigger] s[j]) is Some
}

/// 32 hexadecimal digits.
pub open spec fn is_hex_key(s: Seq<u8>) -> bool {
    s.len() == 32 && forall|j: int| 0 <= j < 32 ==> hex_value(#[trigger] s[j]) is Some
}

/// What is wrong with a text that is no key.
pub open spec fn refused_key(s: Seq<u8>, e: KeyFormatError) -> bool {
    match e {
        KeyFormatError::WrongLength { got } => s.len() != 32 && got == s.len(),
        KeyFormatError::NotHexadecimal { position } => s.len() == 32 && first_non_hex(s, position as int),
    }
}

fn hex_digit(c: u8) -> (v: Option<u8>)
    ensures
        v == hex_value(c),
        v is Some ==> v->0 < 16,
{
    if 0x30 <= c && c <= 0x39 {
        Some(c - 0x30)
    } else if 0x61 <= c && c <= 0x66 {
        Some(c - 0x57)
    } else if 0x41 <= c && c <= 0x46 {
        Some(c - 0x37)
    } else {
        None
    }
}

/// Reads a key of 16 octets from 32 hexadecimal digits, of either case.
pub fn key_from_hex(text: &str) -> (r: Result<[u8; 16], KeyFormatError>)
    ensures
        match r {
            Ok(key) => is_hex_key(text.spec_bytes()) && key@ == hex_key(text.spec_bytes()),
            Err(e) => refused_key(text.spec_bytes(), e),
        },
{
    let s: &[u8] = text.as_bytes();
    if s.len() != 32 {
        return Err(KeyFormatError::WrongLength { got: s.len() });
    }
    let mut key: [u8; 16] = [0; 16];
    let mut i: usize = 0;
    while i < 16
        invariant
            i <= 16,
            s@ == text.spec_bytes(),
            s@.len() == 32,
            forall|j: int| 0 <= j < 2 * i ==> hex_value(#[trigger] s@[j]) is Some,
            forall|j: int| 0 <= j < i ==> #[trigger] key@[j] == hex_key(s@)[j],
        decreases 16 - i,
    {
        let high = match hex_digit(s[2 * i]) {
            Some(v) => v,
            None => return Err(KeyFormatError::NotHexadecimal { position: 2 * i }),
        };
        let low = match hex_digit(s[2 * i + 1]) {
            Some(v) => v,
            None => return Err(KeyFormatError::NotHexadecimal { position: 2 * i + 1 }),
        };
        key[i] = high * 16 + low;
        assert(key@[i as int] == hex_key(s@)[i as int]);
        i += 1;
    }
    assert(key@ =~= hex_key(s@));
    Ok(key)
}

// ── Database ──────────────────────────────────────────────────────────────────

/// A subscriber: the SIM's secrets, and the SQN of the next vector.
#[derive(Clone, Copy)]
pub struct SubscriberRecord {
    pub milenage: MilenageContext,
    pub sqn: u64,
}

#[verifier::ext_equal]
pub struct SubscriberView {
    pub k: Seq<u8>,
    pub opc: Seq<u8>,
    pub sqn: u64,
}

impl View for SubscriberRecord {
    type V = SubscriberView;

    open spec fn view(&self) -> SubscriberView {
        SubscriberView { k: self.milenage.k@, opc: self.milenage.opc@, sqn: self.sqn }
    }
}

/// A vector, with the challenge and the SQN that it was made for.
#[derive(Clone, Copy)]
pub struct HssAuthInfo {
    pub vector: AuthVector,
    pub rand: [u8; 16],
    pub sqn_used: [u8; 6],
}

#[verifier::ext_equal]
pub struct AuthInfoView {
    pub vector: AuthVectorView,
    pub rand: Seq<u8>,
    pub sqn_used: Seq<u8>,
}

impl View for HssAuthInfo {
    type V = AuthInfoView;

    open spec fn view(&self) -> AuthInfoView {
        AuthInfoView { vector: self.vector@, rand: self.rand@, sqn_used: self.sqn_used@ }
    }
}

/// The subscribers, by IMSI.
pub struct Hss {
    subscribers: HashMap<u64, SubscriberRecord>,
}

impl View for Hss {
    type V = Map<u64, SubscriberView>;

    closed spec fn view(&self) -> Map<u64, SubscriberView> {
        self.subscribers@.map_values(|r: SubscriberRecord| r@)
    }
}

/// A newly provisioned subscriber.
pub open spec fn provisioned(k: Seq<u8>, opc: Seq<u8>) -> SubscriberView {
    SubscriberView { k, opc, sqn: 0 }
}

/// The sequence number after `sqn`.
pub open spec fn next_sqn(sqn: u64) -> u64 {
    ((sqn + 1) % SQN_MODULUS as int) as u64
}

/// The vector that a subscriber gets for a challenge.
pub open spec fn auth_info(s: SubscriberView, rand: Seq<u8>) -> AuthInfoView {
    AuthInfoView {
        vector: auth_vector(s.k, s.opc, rand, sqn_octets(s.sqn), amf_field()),
        rand,
        sqn_used: sqn_octets(s.sqn),
    }
}

/// The database after a vector was made for a subscriber.
pub open spec fn after_vector(db: Map<u64, SubscriberView>, imsi: u64) -> Map<u64, SubscriberView> {
    if db.contains_key(imsi) {
        db.insert(imsi, SubscriberView { sqn: next_sqn(db[imsi].sqn), ..db[imsi] })
    } else {
        db
    }
}

/// Consecutive vectors of a subscriber never use the same SQN, and a vector
/// for one subscriber leaves the others alone.
pub proof fn vectors_use_new_sqn(db: Map<u64, SubscriberView>, imsi: u64, other: u64, rand1: Seq<u8>, rand2: Seq<u8>)
    requires
        db.contains_key(imsi),
        db[imsi].sqn < SQN_MODULUS,
    ensures
        after_vector(db, imsi).contains_key(imsi),
        after_vector(db, imsi)[imsi].sqn < SQN_MODULUS,
        auth_info(db[imsi], rand1).sqn_used != auth_info(after_vector(db, imsi)[imsi], rand2).sqn_used,
        other != imsi && db.contains_key(other) ==> after_vector(db, imsi).contains_key(other) && after_vector(
            db,
            imsi,
        )[other] == db[other],
{
    let a = db[imsi].sqn;
    let b = next_sqn(a);
    if sqn_octets(a) == sqn_octets(b) {
        sqn_octets_are_separate(a, b);
    }
}

impl Hss {
    pub fn new() -> (h: Self)
        ensures
            h@ == Map::<u64, SubscriberView>::empty(),
    {
        let h = Hss { subscribers: HashMap::new() };
        assert(h@ =~= Map::<u64, SubscriberView>::empty());
        h
    }

    /// Adds a subscriber, whose first vector will use SQN 0. One with the same
    /// IMSI is replaced.
    pub fn provision(&mut self, imsi: u64, k: [u8; 16], opc: [u8; 16])
        ensures
            final(self)@ == (old(self)@).insert(imsi, provisioned(k@, opc@)),
    {
        broadcast use group_hash_axioms;

        self.subscribers.insert(imsi, SubscriberRecord { milenage: MilenageContext::new(k, opc), sqn: 0 });
        assert(self@ =~= (old(self)@).insert(imsi, provisioned(k@, opc@)));
    }

    /// Adds a subscriber whose keys are given in hexadecimal. Where one of
    /// them is refused, K first, nothing changes.
    pub fn provision_hex(&mut self, imsi: u64, k: &str, opc: &str) -> (r: Result<(), KeyFormatError>)
        ensures
            is_hex_key(k.spec_bytes()) && is_hex_key(opc.spec_bytes()) <==> r is Ok,
            r is Ok ==> final(self)@ == (old(self)@).insert(
                imsi,
                provisioned(hex_key(k.spec_bytes()), hex_key(opc.spec_bytes())),
            ),
            r is Err ==> final(self)@ == old(self)@,
            r is Err ==> refused_key(
                if is_hex_key(k.spec_bytes()) {
                    opc.spec_bytes()
                } else {
                    k.spec_bytes()
                },
                r->Err_0,
            ),
    {
        let k = match key_from_hex(k) {
            Ok(key) => key,
            Err(e) => return Err(e),
        };
        let opc = match key_from_hex(opc) {
            Ok(key) => key,
            Err(e) => return Err(e),
        };
        self.provision(imsi, k, opc);
        Ok(())
    }

    pub fn has_subscriber(&self, imsi: u64) -> (b: bool)
        ensures
            b == self@.contains_key(imsi),
    {
        broadcast use group_hash_axioms;

        self.subscribers.contains_key(&imsi)
    }

    /// Makes a vector for the challenge `rand` and counts SQN up. `None` for
    /// an unknown subscriber.
    pub fn generate_auth_vector(&mut self, imsi: u64, rand: [u8; 16]) -> (r: Option<HssAuthInfo>)
        ensures
            final(self)@ == after_vector(old(self)@, imsi),
            match r {
                Some(info) => old(self)@.contains_key(imsi) && info@ == auth_info((old(self)@)[imsi], rand@),
                None => !old(self)@.contains_key(imsi),
            },
    {
        broadcast use group_hash_axioms;

        let record = match self.subscribers.get(&imsi) {
            Some(r) => *r,
            None => {
                return None;
            },
        };
        let sqn_used = sqn_to_octets(record.sqn);
        let amf: [u8; 2] = MILENAGE_AMF_FIELD;
        assert(amf@ =~= amf_field());
        let vector = record.milenage.generate_vector_with_rand(&sqn_used, &amf, &rand);
        let sqn: u64 = ((record.sqn as u128 + 1) % SQN_MODULUS as u128) as u64;
        self.subscribers.insert(imsi, SubscriberRecord { sqn, ..record });
        assert(self@ =~= after_vector(old(self)@, imsi));
        Some(HssAuthInfo { vector, rand, sqn_used })
    }
}

} // verus!
