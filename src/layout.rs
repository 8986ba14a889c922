//! Bit-level layout of the on-chain committee record and its parsing into a
//! committee of consensus keys.
//!
//! The stored blob starts with one length byte and then holds, for every seat,
//! a record of five 32-byte keys (session, babe, grandpa, im-online, authority
//! discovery). Only the grandpa key is the consensus key. Bits of a byte are
//! read most significant first, the convention under which the blob is hashed.
use vstd::prelude::*;

verus! {

/// Size in bytes of one consensus public key.
pub const KEY_SIZE: usize = 32;

/// Fixed capacity of a committee.
pub const MAX_VALIDATOR_COUNT: usize = 6;

/// Size in bytes of one seat's record of session keys.
pub const SESSION_KEYS_SIZE: usize = 160;

/// Offset of the consensus key inside a seat's record.
pub const CONSENSUS_KEY_OFFSET: usize = 64;

/// Size in bytes of the whole stored committee record.
pub const STORAGE_SIZE: usize = 961;

/// Bit `j` (0 is the most significant) of `b`.
pub open spec fn bit_of(b: u8, j: int) -> bool {
    (b >> ((7 - j) as u8)) & 1u8 == 1u8
}

/// The bits of a byte string, eight per byte, most significant first.
pub open spec fn bits_of(s: Seq<u8>) -> Seq<bool> {
    Seq::new((8 * s.len()) as nat, |k: int| bit_of(s[k / 8], k % 8))
}

/// The byte whose bits, most significant first, are `b0` .. `b7`.
pub open spec fn pack_bits(
    b0: bool,
    b1: bool,
    b2: bool,
    b3: bool,
    b4: bool,
    b5: bool,
    b6: bool,
    b7: bool,
) -> u8 {
    ((if b0 { 128u8 } else { 0u8 }) | (if b1 { 64u8 } else { 0u8 }) | (if b2 { 32u8 } else { 0u8 })
        | (if b3 { 16u8 } else { 0u8 }) | (if b4 { 8u8 } else { 0u8 }) | (if b5 { 4u8 } else { 0u8 })
        | (if b6 { 2u8 } else { 0u8 }) | (if b7 { 1u8 } else { 0u8 }))
}

/// The byte formed by the eight bits of `bits` starting at `start`.
pub open spec fn byte_at_bits(bits: Seq<bool>, start: int) -> u8 {
    pack_bits(
        bits[start],
        bits[start + 1],
        bits[start + 2],
        bits[start + 3],
        bits[start + 4],
        bits[start + 5],
        bits[start + 6],
        bits[start + 7],
    )
}

/// Byte offset of the consensus key of seat `i` in the stored record.
pub open spec fn key_start(i: int) -> int {
    1 + SESSION_KEYS_SIZE * i + CONSENSUS_KEY_OFFSET
}

/// The committee, at full capacity, that a bit string of the stored record
/// holds: the consensus key of every seat, in seat order.
pub open spec fn committee_of_bits(bits: Seq<bool>) -> Seq<Seq<u8>> {
    Seq::new(
        MAX_VALIDATOR_COUNT as nat,
        |i: int| Seq::new(KEY_SIZE as nat, |k: int| byte_at_bits(bits, 8 * (key_start(i) + k))),
    )
}

/// The key that fills an empty seat.
pub open spec fn zero_key() -> Seq<u8> {
    Seq::new(KEY_SIZE as nat, |k: int| 0u8)
}

/// A committee padded with zero keys to full capacity.
pub open spec fn padded(c: Seq<Seq<u8>>) -> Seq<Seq<u8>> {
    Seq::new(MAX_VALIDATOR_COUNT as nat, |i: int| if i < c.len() { c[i] } else { zero_key() })
}

/// A committee that fits: at most the capacity, every key of the key size.
pub open spec fn committee_fits(c: Seq<Seq<u8>>) -> bool {
    &&& c.len() <= MAX_VALIDATOR_COUNT
    &&& forall|i: int| 0 <= i < c.len() ==> (#[trigger] c[i]).len() == KEY_SIZE
}

/// The stored record of a committee: its length in compact form, then one
/// record per seat with the consensus key in place and the other keys zero.
pub open spec fn serialized(c: Seq<Seq<u8>>) -> Seq<u8> {
    Seq::new(
        STORAGE_SIZE as nat,
        |p: int|
            if p == 0 {
                (4 * c.len()) as u8
            } else {
                let seat = (p - 1) / SESSION_KEYS_SIZE as int;
                let off = (p - 1) % SESSION_KEYS_SIZE as int;
                if seat < c.len() && CONSENSUS_KEY_OFFSET <= off < CONSENSUS_KEY_OFFSET + KEY_SIZE {
                    c[seat][off - CONSENSUS_KEY_OFFSET]
                } else {
                    0u8
                }
            },
    )
}

/// Reads bit `j` of a byte, most significant first.
pub fn byte_bit(b: u8, j: u8) -> (r: bool)
    requires
        j < 8,
    ensures
        r == bit_of(b, j as int),
{
    (b >> (7 - j)) & 1u8 == 1u8
}

/// Packs eight bits, most significant first, into a byte.
pub fn pack_byte(
    b0: bool,
    b1: bool,
    b2: bool,
    b3: bool,
    b4: bool,
    b5: bool,
    b6: bool,
    b7: bool,
) -> (r: u8)
    ensures
        r == pack_bits(b0, b1, b2, b3, b4, b5, b6, b7),
{
    (if b0 { 128u8 } else { 0u8 }) | (if b1 { 64u8 } else { 0u8 }) | (if b2 { 32u8 } else { 0u8 })
        | (if b3 { 16u8 } else { 0u8 }) | (if b4 { 8u8 } else { 0u8 }) | (if b5 { 4u8 } else { 0u8 })
        | (if b6 { 2u8 } else { 0u8 }) | (if b7 { 1u8 } else { 0u8 })
}

/// Packing the eight bits of a byte gives the byte back.
pub proof fn lemma_pack_bits_of(b: u8)
    ensures
        pack_bits(
            bit_of(b, 0),
            bit_of(b, 1),
            bit_of(b, 2),
            bit_of(b, 3),
            bit_of(b, 4),
            bit_of(b, 5),
            bit_of(b, 6),
            bit_of(b, 7),
        ) == b,
{
    assert(((if (b >> 7u8) & 1u8 == 1u8 { 128u8 } else { 0u8 }) | (if (b >> 6u8) & 1u8 == 1u8 {
        64u8
    } else {
        0u8
    }) | (if (b >> 5u8) & 1u8 == 1u8 { 32u8 } else { 0u8 }) | (if (b >> 4u8) & 1u8 == 1u8 {
        16u8
    } else {
        0u8
    }) | (if (b >> 3u8) & 1u8 == 1u8 { 8u8 } else { 0u8 }) | (if (b >> 2u8) & 1u8 == 1u8 {
        4u8
    } else {
        0u8
    }) | (if (b >> 1u8) & 1u8 == 1u8 { 2u8 } else { 0u8 }) | (if (b >> 0u8) & 1u8 == 1u8 {
        1u8
    } else {
        0u8
    })) == b) by (bit_vector);
}

/// Unpacking then packing the bits of a byte string gives each byte back.
pub proof fn lemma_byte_at_bits_of(s: Seq<u8>, i: int)
    requires
        0 <= i < s.len(),
    ensures
        byte_at_bits(bits_of(s), 8 * i) == s[i],
{
    let bits = bits_of(s);
    assert forall|j: int| 0 <= j < 8 implies #[trigger] bits[8 * i + j] == bit_of(s[i], j) by {
        assert((8 * i + j) / 8 == i && (8 * i + j) % 8 == j) by (nonlinear_arith)
            requires
                0 <= j < 8,
        ;
        assert(8 * i + j < 8 * s.len()) by (nonlinear_arith)
            requires
                0 <= j < 8,
                i < s.len(),
        ;
    }
    assert(bits[8 * i + 0] == bit_of(s[i], 0));
    lemma_pack_bits_of(s[i]);
}

/// The bits of a byte string, eight per byte, most significant first.
pub fn bytes_to_bits(blob: &Vec<u8>) -> (r: Vec<bool>)
    requires
        8 * blob@.len() <= usize::MAX,
    ensures
        r@ == bits_of(blob@),
{
    let mut out: Vec<bool> = Vec::new();
    let mut i: usize = 0;
    while i < blob.len()
        invariant
            0 <= i <= blob@.len(),
            8 * blob@.len() <= usize::MAX,
            out@.len() == 8 * i,
            forall|k: int| 0 <= k < 8 * i ==> #[trigger] out@[k] == bit_of(blob@[k / 8], k % 8),
        decreases blob@.len() - i,
    {
        let b = blob[i];
        let mut j: u8 = 0;
        while j < 8
            invariant
                0 <= i < blob@.len(),
                b == blob@[i as int],
                0 <= j <= 8,
                out@.len() == 8 * i + j,
                forall|k: int|
                    0 <= k < 8 * i + j ==> #[trigger] out@[k] == bit_of(blob@[k / 8], k % 8),
            decreases 8 - j,
        {
            let bit = byte_bit(b, j);
            proof {
                let k = 8 * i + j;
                assert(k / 8 == i as int && k % 8 == j as int) by (nonlinear_arith)
                    requires
                        k == 8 * i + j,
                        0 <= j < 8,
                ;
            }
            out.push(bit);
            j = j + 1;
        }
        i = i + 1;
    }
    assert(out@ =~= bits_of(blob@));
    out
}

/// The bits of the stored committee record, as witnessed in a circuit.
pub struct ValidatorSetInStorageTarget {
    pub bits: Vec<bool>,
}

impl ValidatorSetInStorageTarget {
    /// Parses the bits of the stored committee record into the committee, at
    /// full capacity: the consensus key of every seat, in seat order. The
    /// other keys of each record and the length byte are discarded.
    pub fn into_grandpa_authority_keys(self) -> (r: Vec<Vec<u8>>)
        requires
            self.bits@.len() == 8 * STORAGE_SIZE,
        ensures
            r.deep_view() == committee_of_bits(self.bits@),
    {
        let bits = self.bits;
        let mut out: Vec<Vec<u8>> = Vec::new();
        let mut i: usize = 0;
        while i < MAX_VALIDATOR_COUNT
            invariant
                bits@.len() == 8 * STORAGE_SIZE,
                0 <= i <= MAX_VALIDATOR_COUNT,
                out@.len() == i,
                forall|s: int| 0 <= s < i ==> (#[trigger] out@[s])@ == committee_of_bits(bits@)[s],
            decreases MAX_VALIDATOR_COUNT - i,
        {
            let start: usize = 1 + SESSION_KEYS_SIZE * i + CONSENSUS_KEY_OFFSET;
            let mut key: Vec<u8> = Vec::new();
            let mut k: usize = 0;
            while k < KEY_SIZE
                invariant
                    bits@.len() == 8 * STORAGE_SIZE,
                    0 <= i < MAX_VALIDATOR_COUNT,
                    start == key_start(i as int),
                    0 <= k <= KEY_SIZE,
                    key@.len() == k,
                    forall|t: int|
                        0 <= t < k ==> #[trigger] key@[t] == byte_at_bits(bits@, 8 * (start + t)),
                decreases KEY_SIZE - k,
            {
                let p: usize = 8 * (start + k);
                let b = pack_byte(
                    bits[p],
                    bits[p + 1],
                    bits[p + 2],
                    bits[p + 3],
                    bits[p + 4],
                    bits[p + 5],
                    bits[p + 6],
                    bits[p + 7],
                );
                key.push(b);
                k = k + 1;
            }
            assert(key@ =~= committee_of_bits(bits@)[i as int]);
            out.push(key);
            i = i + 1;
        }
        assert forall|s: int| 0 <= s < out@.len() implies #[trigger] out.deep_view()[s]
            == committee_of_bits(bits@)[s] by {
            assert(out.deep_view()[s] =~= out@[s]@);
        }
        assert(out.deep_view() =~= committee_of_bits(bits@));
        out
    }
}

/// Bit round trip: for every committee that fits, parsing the bits of its
/// stored record gives the committee back, padded with zero keys to full
/// capacity, in the same seat order.
pub proof fn lemma_bits_round_trip(c: Seq<Seq<u8>>)
    requires
        committee_fits(c),
    ensures
        committee_of_bits(bits_of(serialized(c))) == padded(c),
{
    let blob = serialized(c);
    let got = committee_of_bits(bits_of(blob));
    let want = padded(c);
    assert forall|i: int| 0 <= i < MAX_VALIDATOR_COUNT implies #[trigger] got[i] =~= want[i] by {
        assert forall|k: int| 0 <= k < KEY_SIZE implies #[trigger] got[i][k] == want[i][k] by {
            let p = key_start(i) + k;
            assert(p < STORAGE_SIZE);
            lemma_byte_at_bits_of(blob, p);
            assert((p - 1) / 160 == i && (p - 1) % 160 == 64 + k) by (nonlinear_arith)
                requires
                    p == 1 + 160 * i + 64 + k,
                    0 <= k < 32,
                    0 <= i,
            ;
        }
    }
    assert(got =~= want);
}

/// Pads a committee with zero keys to full capacity.
pub fn pad_committee(c: &Vec<Vec<u8>>) -> (r: Vec<Vec<u8>>)
    requires
        committee_fits(c.deep_view()),
    ensures
        r.deep_view() == padded(c.deep_view()),
{
    let mut out: Vec<Vec<u8>> = Vec::new();
    let mut i: usize = 0;
    while i < MAX_VALIDATOR_COUNT
        invariant
            committee_fits(c.deep_view()),
            0 <= i <= MAX_VALIDATOR_COUNT,
            out@.len() == i,
            forall|s: int| 0 <= s < i ==> (#[trigger] out@[s])@ == padded(c.deep_view())[s],
        decreases MAX_VALIDATOR_COUNT - i,
    {
        if i < c.len() {
            let key = c[i].clone();
            assert(c.deep_view()[i as int] == c@[i as int]@);
            out.push(key);
        } else {
            let key: Vec<u8> = vec![0u8; KEY_SIZE];
            assert(key@ =~= zero_key());
            out.push(key);
        }
        i = i + 1;
    }
    assert forall|s: int| 0 <= s < out@.len() implies #[trigger] out.deep_view()[s]
        == padded(c.deep_view())[s] by {
        assert(out.deep_view()[s] =~= out@[s]@);
    }
    assert(out.deep_view() =~= padded(c.deep_view()));
    out
}

/// The stored record of a committee that fits: a length byte, then one
/// record per seat with the consensus key in place and the other keys zero.
pub fn serialize_committee(c: &Vec<Vec<u8>>) -> (r: Vec<u8>)
    requires
        committee_fits(c.deep_view()),
    ensures
        r@ == serialized(c.deep_view()),
{
    let ghost cv = c.deep_view();
    let mut out: Vec<u8> = Vec::new();
    out.push((4 * c.len()) as u8);
    let mut p: usize = 1;
    while p < STORAGE_SIZE
        invariant
            cv == c.deep_view(),
            committee_fits(cv),
            1 <= p <= STORAGE_SIZE,
            out@.len() == p,
            forall|q: int| 0 <= q < p ==> #[trigger] out@[q] == serialized(cv)[q],
        decreases STORAGE_SIZE - p,
    {
        let seat: usize = (p - 1) / SESSION_KEYS_SIZE;
        let off: usize = (p - 1) % SESSION_KEYS_SIZE;
        if seat < c.len() && CONSENSUS_KEY_OFFSET <= off && off < CONSENSUS_KEY_OFFSET + KEY_SIZE {
            assert(cv[seat as int] == c@[seat as int]@);
            let v = c[seat][off - CONSENSUS_KEY_OFFSET];
            out.push(v);
        } else {
            out.push(0u8);
        }
        p = p + 1;
    }
    assert(out@ =~= serialized(cv));
    out
}

/// The committee, at full capacity, that the stored record holds: the
/// consensus key of every seat, in seat order.
pub open spec fn committee_of_blob(blob: Seq<u8>) -> Seq<Seq<u8>> {
    Seq::new(
        MAX_VALIDATOR_COUNT as nat,
        |i: int| blob.subrange(key_start(i), key_start(i) + KEY_SIZE),
    )
}

/// Reads the committee straight from the bytes of the stored record.
pub fn committee_from_storage(blob: &Vec<u8>) -> (r: Vec<Vec<u8>>)
    requires
        blob@.len() == STORAGE_SIZE,
    ensures
        r.deep_view() == committee_of_blob(blob@),
{
    let mut out: Vec<Vec<u8>> = Vec::new();
    let mut i: usize = 0;
    while i < MAX_VALIDATOR_COUNT
        invariant
            blob@.len() == STORAGE_SIZE,
            0 <= i <= MAX_VALIDATOR_COUNT,
            out@.len() == i,
            forall|s: int| 0 <= s < i ==> (#[trigger] out@[s])@ == committee_of_blob(blob@)[s],
        decreases MAX_VALIDATOR_COUNT - i,
    {
        let start: usize = 1 + SESSION_KEYS_SIZE * i + CONSENSUS_KEY_OFFSET;
        let mut key: Vec<u8> = Vec::new();
        let mut k: usize = 0;
        while k < KEY_SIZE
            invariant
                blob@.len() == STORAGE_SIZE,
                0 <= i < MAX_VALIDATOR_COUNT,
                start == key_start(i as int),
                0 <= k <= KEY_SIZE,
                key@ =~= blob@.subrange(start as int, start + k),
            decreases KEY_SIZE - k,
        {
            key.push(blob[start + k]);
            k = k + 1;
        }
        out.push(key);
        i = i + 1;
    }
    assert forall|s: int| 0 <= s < out@.len() implies #[trigger] out.deep_view()[s]
        == committee_of_blob(blob@)[s] by {
        assert(out.deep_view()[s] =~= out@[s]@);
    }
    assert(out.deep_view() =~= committee_of_blob(blob@));
    out
}

/// Parsing the bits of a stored record gives the committee that its bytes
/// hold.
pub proof fn lemma_bits_agree_with_bytes(blob: Seq<u8>)
    requires
        blob.len() == STORAGE_SIZE,
    ensures
        committee_of_bits(bits_of(blob)) == committee_of_blob(blob),
{
    let got = committee_of_bits(bits_of(blob));
    let want = committee_of_blob(blob);
    assert forall|i: int| 0 <= i < MAX_VALIDATOR_COUNT implies #[trigger] got[i] =~= want[i] by {
        assert forall|k: int| 0 <= k < KEY_SIZE implies #[trigger] got[i][k] == want[i][k] by {
            lemma_byte_at_bits_of(blob, key_start(i) + k);
        }
    }
    assert(got =~= want);
}

/// A full-capacity committee of keys of the key size concatenates to
/// capacity times the key size bytes.
pub proof fn lemma_committee_bytes_len(c: Seq<Seq<u8>>)
    requires
        c.len() <= MAX_VALIDATOR_COUNT,
        forall|i: int| 0 <= i < c.len() ==> (#[trigger] c[i]).len() == KEY_SIZE,
    ensures
        c.flatten().len() == KEY_SIZE * c.len(),
        c.flatten().len() <= KEY_SIZE * MAX_VALIDATOR_COUNT,
    decreases c.len(),
{
    if c.len() > 0 {
        let rest = c.drop_first();
        assert forall|i: int| 0 <= i < rest.len() implies (#[trigger] rest[i]).len() == KEY_SIZE by {
            assert(rest[i] == c[i + 1]);
        }
        lemma_committee_bytes_len(rest);
        assert(c[0].len() == KEY_SIZE);
    }
}

/// The committee that the stored record of a fitting committee holds is
/// that committee padded to capacity.
pub proof fn lemma_stored_committee(c: Seq<Seq<u8>>)
    requires
        committee_fits(c),
    ensures
        committee_of_blob(serialized(c)) == padded(c),
{
    lemma_bits_round_trip(c);
    lemma_bits_agree_with_bytes(serialized(c));
}

} // verus!
