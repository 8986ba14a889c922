//! The committee hash leaf and the content hash of witnessed bytes, both
//! BLAKE2b with a 32-byte digest.
use vstd::prelude::*;

verus! {

/// The 32-byte BLAKE2b digest of a byte string.
pub uninterp spec fn blake2b256_of(data: Seq<u8>) -> Seq<u8>;

/// Relies on blake2's `Blake2b<U32>` through `Digest::digest`: the BLAKE2b
/// digest of the bytes with a 32-byte output, which depends on the bytes
/// alone.
#[verifier::external_body]
pub(crate) fn blake2b256(data: &Vec<u8>) -> (r: Vec<u8>)
    ensures
        r@ == blake2b256_of(data@),
        r@.len() == 32,
{
    <blake2::Blake2b<blake2::digest::consts::U32> as blake2::Digest>::digest(data.as_slice()).to_vec()
}

/// The committee hash leaf's input: a full-capacity committee.
pub struct ValidatorSetHash {
    pub validator_set: Vec<Vec<u8>>,
}

/// The committee hash leaf's public result: the commitment to a committee,
/// and the committee itself.
pub struct HashLeafStatement {
    pub hash: Vec<u8>,
    pub validator_set: Vec<Vec<u8>>,
}

/// The commitment to a committee: the hash of its keys, concatenated in
/// seat order.
pub open spec fn committee_commitment(c: Seq<Seq<u8>>) -> Seq<u8> {
    blake2b256_of(c.flatten())
}

/// The keys of a committee, concatenated in seat order.
pub fn concat_keys(c: &Vec<Vec<u8>>) -> (r: Vec<u8>)
    requires
        c.deep_view().flatten().len() <= usize::MAX,
    ensures
        r@ == c.deep_view().flatten(),
{
    let ghost cv = c.deep_view();
    let mut out: Vec<u8> = Vec::new();
    let mut i: usize = 0;
    while i < c.len()
        invariant
            cv == c.deep_view(),
            0 <= i <= c@.len(),
            out@ == cv.take(i as int).flatten(),
        decreases c@.len() - i,
    {
        proof {
            assert(cv.take(i + 1) =~= cv.take(i as int).push(cv[i as int]));
            cv.take(i as int).lemma_flatten_push(cv[i as int]);
            assert(cv[i as int] == c@[i as int]@);
        }
        let mut k: usize = 0;
        let ghost before = out@;
        while k < c[i].len()
            invariant
                0 <= i < c@.len(),
                0 <= k <= c@[i as int]@.len(),
                out@ == before + c@[i as int]@.take(k as int),
            decreases c@[i as int]@.len() - k,
        {
            out.push(c[i][k]);
            k = k + 1;
            assert(out@ =~= before + c@[i as int]@.take(k as int));
        }
        assert(c@[i as int]@.take(k as int) =~= c@[i as int]@);
        i = i + 1;
    }
    assert(cv.take(cv.len() as int) =~= cv);
    out
}

impl ValidatorSetHash {
    /// The committee hash leaf: exposes the commitment to the committee
    /// together with the committee itself.
    pub fn prove(&self) -> (r: HashLeafStatement)
        requires
            self.validator_set.deep_view().flatten().len() <= usize::MAX,
        ensures
            r.hash@ == committee_commitment(self.validator_set.deep_view()),
            r.validator_set.deep_view() == self.validator_set.deep_view(),
    {
        let keys = concat_keys(&self.validator_set);
        let hash = blake2b256(&keys);
        let validator_set = self.validator_set.clone();
        proof {
            broadcast use vstd::std_specs::vec::vec_clone_deep_view_proof;
        }
        HashLeafStatement { hash, validator_set }
    }
}

} // verus!
