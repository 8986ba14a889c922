//! Public statements of the sub-proofs and the two composers that bind them:
//! committee extraction from witnessed chain state, and the epoch transition
//! that ties a committee's hash to the committee extracted from chain state.
use vstd::prelude::*;
use crate::hash::{
    blake2b256, blake2b256_of, committee_commitment, HashLeafStatement, ValidatorSetHash,
};
use crate::layout::{
    bits_of, bytes_to_bits, committee_from_storage, committee_of_bits, committee_of_blob,
    lemma_bits_agree_with_bytes, lemma_committee_bytes_len, ValidatorSetInStorageTarget,
    STORAGE_SIZE,
};

verus! {

/// Length in bytes of a finality vote message.
pub const VOTE_MESSAGE_SIZE: usize = 53;

/// Offset of the finalized block's hash in a vote message.
pub const VOTE_BLOCK_HASH_OFFSET: usize = 1;

/// Length in bytes of a block hash.
pub const BLOCK_HASH_SIZE: usize = 32;

/// Offset of the little-endian authority set id in a vote message.
pub const VOTE_SET_ID_OFFSET: usize = 45;

/// The public result of verifying a quorum of committee signatures over a
/// finalized-block vote message.
pub struct FinalityStatement {
    /// Commitment to the committee that signed.
    pub validator_set_hash: Vec<u8>,
    /// The vote message that was signed.
    pub message: Vec<u8>,
}

/// The public result of verifying that a value hashing to
/// `storage_item_hash` sits in the state of the block `block_hash`.
pub struct InclusionStatement {
    pub block_hash: Vec<u8>,
    pub storage_item_hash: Vec<u8>,
}

/// The public result of the committee extraction composer.
pub struct Extraction {
    pub prior_committee_hash: Vec<u8>,
    pub epoch_id: u64,
    pub next_committee: Vec<Vec<u8>>,
}

/// The public result of one epoch transition.
pub struct EpochProof {
    pub prior_committee_hash: Vec<u8>,
    pub next_committee_hash: Vec<u8>,
    pub epoch_id: u64,
}

/// What an epoch transition states, as mathematical values.
pub ghost struct EpochStatement {
    pub prior: Seq<u8>,
    pub next: Seq<u8>,
    pub epoch_id: u64,
}

impl View for EpochProof {
    type V = EpochStatement;

    open spec fn view(&self) -> EpochStatement {
        EpochStatement {
            prior: self.prior_committee_hash@,
            next: self.next_committee_hash@,
            epoch_id: self.epoch_id,
        }
    }
}

impl EpochProof {
    /// A copy of the proof's public statement.
    pub fn duplicate(&self) -> (r: EpochProof)
        ensures
            r@ == self@,
    {
        EpochProof {
            prior_committee_hash: self.prior_committee_hash.clone(),
            next_committee_hash: self.next_committee_hash.clone(),
            epoch_id: self.epoch_id,
        }
    }
}

/// Why a composition has no satisfying witness.
#[derive(Debug, PartialEq, Eq, Structural, Clone, Copy)]
pub enum CompositionError {
    /// The inclusion and finality statements speak of different blocks.
    BlockHashMismatch,
    /// The hash of the witnessed bytes is not the hash the trie proved.
    StorageHashMismatch,
    /// The hashed committee and the extracted committee differ in a seat.
    CommitteeMismatch,
}

/// The little-endian integer of eight bytes.
pub open spec fn le_u64(b: Seq<u8>) -> u64 {
    (b[0] as u64) | ((b[1] as u64) << 8u64) | ((b[2] as u64) << 16u64) | ((b[3] as u64)
        << 24u64) | ((b[4] as u64) << 32u64) | ((b[5] as u64) << 40u64) | ((b[6] as u64)
        << 48u64) | ((b[7] as u64) << 56u64)
}

/// The finalized block's hash in a vote message.
pub open spec fn vote_block_hash(m: Seq<u8>) -> Seq<u8> {
    m.subrange(VOTE_BLOCK_HASH_OFFSET as int, (VOTE_BLOCK_HASH_OFFSET + BLOCK_HASH_SIZE) as int)
}

/// The authority set id in a vote message.
pub open spec fn vote_set_id(m: Seq<u8>) -> u64 {
    le_u64(m.subrange(VOTE_SET_ID_OFFSET as int, VOTE_MESSAGE_SIZE as int))
}

/// The outcome that the extraction composer owes for inputs of the fixed
/// layout.
pub open spec fn extraction_error(
    validator_set_message: Seq<u8>,
    inclusion_block_hash: Seq<u8>,
    storage_item_hash: Seq<u8>,
    blob_hash: Seq<u8>,
) -> Option<CompositionError> {
    if inclusion_block_hash != vote_block_hash(validator_set_message) {
        Some(CompositionError::BlockHashMismatch)
    } else if blob_hash != storage_item_hash {
        Some(CompositionError::StorageHashMismatch)
    } else {
        None
    }
}

/// Whether two byte strings are equal.
pub fn bytes_equal(a: &Vec<u8>, b: &Vec<u8>) -> (r: bool)
    ensures
        r == (a@ == b@),
{
    if a.len() != b.len() {
        return false;
    }
    let mut i: usize = 0;
    while i < a.len()
        invariant
            a@.len() == b@.len(),
            0 <= i <= a@.len(),
            forall|k: int| 0 <= k < i ==> a@[k] == b@[k],
        decreases a@.len() - i,
    {
        if a[i] != b[i] {
            return false;
        }
        i = i + 1;
    }
    assert(a@ =~= b@);
    true
}

/// Whether two committees are equal seat by seat.
pub fn committees_equal(a: &Vec<Vec<u8>>, b: &Vec<Vec<u8>>) -> (r: bool)
    ensures
        r == (a.deep_view() == b.deep_view()),
{
    if a.len() != b.len() {
        assert(a.deep_view().len() != b.deep_view().len());
        return false;
    }
    let mut i: usize = 0;
    while i < a.len()
        invariant
            a@.len() == b@.len(),
            0 <= i <= a@.len(),
            forall|k: int| 0 <= k < i ==> a.deep_view()[k] == b.deep_view()[k],
        decreases a@.len() - i,
    {
        assert(a.deep_view()[i as int] == a@[i as int]@);
        assert(b.deep_view()[i as int] == b@[i as int]@);
        if !bytes_equal(&a[i], &b[i]) {
            return false;
        }
        i = i + 1;
    }
    assert(a.deep_view() =~= b.deep_view());
    true
}

/// Reads the little-endian integer of the eight bytes at `at`.
pub fn read_le_u64(m: &Vec<u8>, at: usize) -> (r: u64)
    requires
        at + 8 <= m@.len(),
    ensures
        r == le_u64(m@.subrange(at as int, at + 8)),
{
    let n = m.len();
    assert(at + 8 <= n);
    (m[at] as u64) | ((m[at + 1] as u64) << 8u64) | ((m[at + 2] as u64) << 16u64) | ((m[at
        + 3] as u64) << 24u64) | ((m[at + 4] as u64) << 32u64) | ((m[at + 5] as u64) << 40u64)
        | ((m[at + 6] as u64) << 48u64) | ((m[at + 7] as u64) << 56u64)
}

/// The finalized block's hash in a vote message.
pub fn vote_block_hash_of(message: &Vec<u8>) -> (r: Vec<u8>)
    requires
        message@.len() == VOTE_MESSAGE_SIZE,
    ensures
        r@ == vote_block_hash(message@),
{
    let mut out: Vec<u8> = Vec::new();
    let mut k: usize = 0;
    while k < BLOCK_HASH_SIZE
        invariant
            message@.len() == VOTE_MESSAGE_SIZE,
            0 <= k <= BLOCK_HASH_SIZE,
            out@ =~= message@.subrange(VOTE_BLOCK_HASH_OFFSET as int, VOTE_BLOCK_HASH_OFFSET + k),
        decreases BLOCK_HASH_SIZE - k,
    {
        out.push(message[VOTE_BLOCK_HASH_OFFSET + k]);
        k = k + 1;
    }
    out
}

/// The inputs of the committee extraction composer: the finality statement
/// of the current epoch's block, the inclusion statement of the stored
/// record of the next committee, and that record's bytes.
pub struct NextValidatorSetNonHashed {
    pub current_epoch_block_finality: FinalityStatement,
    pub next_validator_set_inclusion_proof: InclusionStatement,
    pub next_validator_set_storage_data: Vec<u8>,
}

impl NextValidatorSetNonHashed {
    /// The committee extraction composer, given the hash of the witnessed
    /// record. It binds the inclusion and finality statements to the same
    /// block, binds the witnessed record to the trie-proven hash through
    /// `storage_data_hash`, reads the authority set id from
    /// the vote message, and parses the record into a full-capacity committee.
    ///
    /// The record and the vote message have the fixed layout; any other
    /// length is a fault of the protocol's layout, not of the data. It fails
    /// exactly when the statements speak of different blocks, or the hash of
    /// the witnessed record is not the proven one.
    pub fn prove_with_hash(&self, storage_data_hash: &Vec<u8>) -> (r: Result<
        Extraction,
        CompositionError,
    >)
        requires
            self.current_epoch_block_finality.message@.len() == VOTE_MESSAGE_SIZE,
            self.next_validator_set_storage_data@.len() == STORAGE_SIZE,
        ensures
            match extraction_error(
                self.current_epoch_block_finality.message@,
                self.next_validator_set_inclusion_proof.block_hash@,
                self.next_validator_set_inclusion_proof.storage_item_hash@,
                storage_data_hash@,
            ) {
                Some(e) => r == Err::<Extraction, CompositionError>(e),
                None => r matches Ok(x) && x.prior_committee_hash@
                    == self.current_epoch_block_finality.validator_set_hash@ && x.epoch_id
                    == vote_set_id(self.current_epoch_block_finality.message@)
                    && x.next_committee.deep_view() == committee_of_bits(
                    bits_of(self.next_validator_set_storage_data@),
                ),
            },
    {
        let finality = &self.current_epoch_block_finality;
        let inclusion = &self.next_validator_set_inclusion_proof;
        let blob = &self.next_validator_set_storage_data;
        let voted_block = vote_block_hash_of(&finality.message);
        if !bytes_equal(&inclusion.block_hash, &voted_block) {
            return Err(CompositionError::BlockHashMismatch);
        }
        if !bytes_equal(storage_data_hash, &inclusion.storage_item_hash) {
            return Err(CompositionError::StorageHashMismatch);
        }
        let epoch_id = read_le_u64(&finality.message, VOTE_SET_ID_OFFSET);
        let bits = bytes_to_bits(blob);
        let next_committee = ValidatorSetInStorageTarget { bits }.into_grandpa_authority_keys();
        Ok(
            Extraction {
                prior_committee_hash: finality.validator_set_hash.clone(),
                epoch_id,
                next_committee,
            },
        )
    }

    /// The committee extraction composer: hashes the witnessed record and
    /// goes on as `prove_with_hash` does with that hash.
    pub fn prove(&self) -> (r: Result<Extraction, CompositionError>)
        requires
            self.current_epoch_block_finality.message@.len() == VOTE_MESSAGE_SIZE,
            self.next_validator_set_storage_data@.len() == STORAGE_SIZE,
        ensures
            match extraction_error(
                self.current_epoch_block_finality.message@,
                self.next_validator_set_inclusion_proof.block_hash@,
                self.next_validator_set_inclusion_proof.storage_item_hash@,
                blake2b256_of(self.next_validator_set_storage_data@),
            ) {
                Some(e) => r == Err::<Extraction, CompositionError>(e),
                None => r matches Ok(x) && x.prior_committee_hash@
                    == self.current_epoch_block_finality.validator_set_hash@ && x.epoch_id
                    == vote_set_id(self.current_epoch_block_finality.message@)
                    && x.next_committee.deep_view() == committee_of_bits(
                    bits_of(self.next_validator_set_storage_data@),
                ),
            },
    {
        let storage_data_hash = blake2b256(&self.next_validator_set_storage_data);
        self.prove_with_hash(&storage_data_hash)
    }
}

/// The inputs of one epoch transition: the same as those of the committee
/// extraction composer, whose record also feeds the committee hash leaf.
pub struct NextValidatorSet {
    pub current_epoch_block_finality: FinalityStatement,
    pub next_validator_set_inclusion_proof: InclusionStatement,
    pub next_validator_set_storage_data: Vec<u8>,
}

impl NextValidatorSet {
    /// One epoch transition. The committee read from the stored record's
    /// bytes feeds the hash leaf; the record itself feeds the extraction
    /// composer; the transition composer then requires both committees to
    /// agree seat by seat, which they always do, so the transition fails
    /// exactly when the extraction does. It goes from the committee that
    /// signed the block to the commitment to the stored committee.
    pub fn prove(&self) -> (r: Result<EpochProof, CompositionError>)
        requires
            self.current_epoch_block_finality.message@.len() == VOTE_MESSAGE_SIZE,
            self.next_validator_set_storage_data@.len() == STORAGE_SIZE,
        ensures
            match extraction_error(
                self.current_epoch_block_finality.message@,
                self.next_validator_set_inclusion_proof.block_hash@,
                self.next_validator_set_inclusion_proof.storage_item_hash@,
                blake2b256_of(self.next_validator_set_storage_data@),
            ) {
                Some(e) => r == Err::<EpochProof, CompositionError>(e),
                None => r matches Ok(p) && p@ == (EpochStatement {
                    prior: self.current_epoch_block_finality.validator_set_hash@,
                    next: committee_commitment(committee_of_blob(self.next_validator_set_storage_data@)),
                    epoch_id: vote_set_id(self.current_epoch_block_finality.message@),
                }),
            },
    {
        let validator_set = committee_from_storage(&self.next_validator_set_storage_data);
        proof {
            lemma_committee_bytes_len(validator_set.deep_view());
        }
        let leaf = ValidatorSetHash { validator_set }.prove();
        let non_hashed = NextValidatorSetNonHashed {
            current_epoch_block_finality: FinalityStatement {
                validator_set_hash: self.current_epoch_block_finality.validator_set_hash.clone(),
                message: self.current_epoch_block_finality.message.clone(),
            },
            next_validator_set_inclusion_proof: InclusionStatement {
                block_hash: self.next_validator_set_inclusion_proof.block_hash.clone(),
                storage_item_hash: self.next_validator_set_inclusion_proof.storage_item_hash.clone(),
            },
            next_validator_set_storage_data: self.next_validator_set_storage_data.clone(),
        };
        let extraction = match non_hashed.prove() {
            Ok(x) => x,
            Err(e) => {
                return Err(e);
            },
        };
        proof {
            lemma_bits_agree_with_bytes(self.next_validator_set_storage_data@);
        }
        compose_transition(&leaf, &extraction)
    }
}

/// The epoch transition composer: the committee whose hash the leaf proves
/// must equal, seat by seat, the committee extracted from chain state. The
/// transition then goes from the extraction's prior committee hash to the
/// leaf's hash, under the extraction's epoch id.
pub fn compose_transition(leaf: &HashLeafStatement, extraction: &Extraction) -> (r: Result<
    EpochProof,
    CompositionError,
>)
    ensures
        leaf.validator_set.deep_view() != extraction.next_committee.deep_view() ==> r == Err::<
            EpochProof,
            CompositionError,
        >(CompositionError::CommitteeMismatch),
        leaf.validator_set.deep_view() == extraction.next_committee.deep_view() ==> (r matches Ok(
            p,
        ) && p@ == (EpochStatement {
            prior: extraction.prior_committee_hash@,
            next: leaf.hash@,
            epoch_id: extraction.epoch_id,
        })),
{
    if !committees_equal(&leaf.validator_set, &extraction.next_committee) {
        return Err(CompositionError::CommitteeMismatch);
    }
    Ok(
        EpochProof {
            prior_committee_hash: extraction.prior_committee_hash.clone(),
            next_committee_hash: leaf.hash.clone(),
            epoch_id: extraction.epoch_id,
        },
    )
}

} // verus!
