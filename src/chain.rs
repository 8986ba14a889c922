//! The proof chain driver's decisions: genesis, one step per epoch, and the
//! terminal statement about a message. Each step is admitted only where it
//! continues the chain, so the chain always reaches back to genesis.
use vstd::prelude::*;
use crate::statements::{
    bytes_equal, extraction_error, vote_block_hash, vote_block_hash_of, vote_set_id,
    CompositionError, EpochProof, EpochStatement, FinalityStatement, InclusionStatement,
    NextValidatorSet, VOTE_MESSAGE_SIZE,
};
use crate::hash::{blake2b256, blake2b256_of, committee_commitment, ValidatorSetHash};
use crate::layout::{
    committee_fits, committee_of_blob, lemma_committee_bytes_len, lemma_stored_committee,
    pad_committee, padded, serialized, STORAGE_SIZE,
};

verus! {

/// The process-wide genesis configuration.
pub struct GenesisConfig {
    /// Commitment to the genesis committee, padded to capacity.
    pub committee_hash: Vec<u8>,
    /// The epoch id the chain starts at.
    pub starting_epoch_id: u64,
}

impl GenesisConfig {
    /// The configuration for a genesis committee that fits: the commitment
    /// to the committee padded to capacity, and the starting epoch id.
    pub fn new(committee: &Vec<Vec<u8>>, starting_epoch_id: u64) -> (r: GenesisConfig)
        requires
            committee_fits(committee.deep_view()),
        ensures
            r.committee_hash@ == committee_commitment(padded(committee.deep_view())),
            r.starting_epoch_id == starting_epoch_id,
    {
        let validator_set = pad_committee(committee);
        proof {
            lemma_committee_bytes_len(validator_set.deep_view());
        }
        let leaf = ValidatorSetHash { validator_set }.prove();
        GenesisConfig { committee_hash: leaf.hash, starting_epoch_id }
    }
}

/// Why the chain refuses a proof.
#[derive(Debug, PartialEq, Eq, Structural, Clone, Copy)]
pub enum ChainError {
    /// The first proof does not start from the genesis committee.
    GenesisCommitteeMismatch,
    /// The first proof is not for the configured starting epoch.
    GenesisEpochMismatch,
    /// The proof does not start from the committee the chain ends at.
    CommitteeMismatch,
    /// The proof's epoch id is not one past the chain's last.
    EpochMismatch,
    /// The inclusion and finality statements speak of different blocks.
    BlockHashMismatch,
    /// The hash of the message is not the hash the trie proved.
    MessageHashMismatch,
}

/// Whether `b` may follow `a` in a chain.
pub open spec fn adjacent(a: EpochStatement, b: EpochStatement) -> bool {
    a.next == b.prior && b.epoch_id == a.epoch_id + 1
}

/// Whether a sequence of epoch statements forms a chain.
pub open spec fn is_chain(s: Seq<EpochStatement>) -> bool {
    forall|i: int| 0 <= i < s.len() - 1 ==> adjacent(#[trigger] s[i], s[i + 1])
}

/// A non-empty, append-only chain of epoch proofs, anchored at genesis.
pub struct ProofChain {
    proofs: Vec<EpochProof>,
}

/// The terminal statement: this message was included in a block finalized
/// by a committee that the chain derives from genesis.
pub struct MessageStatement {
    pub genesis_committee_hash: Vec<u8>,
    pub block_hash: Vec<u8>,
    pub message: Vec<u8>,
}

impl View for ProofChain {
    type V = Seq<EpochStatement>;

    closed spec fn view(&self) -> Seq<EpochStatement> {
        self.proofs@.map_values(|p: EpochProof| p@)
    }
}

impl ProofChain {
    /// The chain is not empty and every proof continues the one before it.
    pub open spec fn wf(&self) -> bool {
        self@.len() >= 1 && is_chain(self@)
    }

    /// Starts a chain with the proof of the configured starting epoch, which
    /// must start from the genesis committee.
    pub fn genesis(config: &GenesisConfig, first: EpochProof) -> (r: Result<ProofChain, ChainError>)
        ensures
            first.prior_committee_hash@ != config.committee_hash@ ==> r == Err::<
                ProofChain,
                ChainError,
            >(ChainError::GenesisCommitteeMismatch),
            first.prior_committee_hash@ == config.committee_hash@ && first.epoch_id
                != config.starting_epoch_id ==> r == Err::<ProofChain, ChainError>(
                ChainError::GenesisEpochMismatch,
            ),
            first.prior_committee_hash@ == config.committee_hash@ && first.epoch_id
                == config.starting_epoch_id ==> (r matches Ok(c) && c.wf() && c@ == seq![first@]),
    {
        if !bytes_equal(&first.prior_committee_hash, &config.committee_hash) {
            return Err(ChainError::GenesisCommitteeMismatch);
        }
        if first.epoch_id != config.starting_epoch_id {
            return Err(ChainError::GenesisEpochMismatch);
        }
        let mut proofs: Vec<EpochProof> = Vec::new();
        proofs.push(first);
        let c = ProofChain { proofs };
        assert(c@ =~= seq![first@]);
        Ok(c)
    }

    /// The number of proofs in the chain.
    pub fn len(&self) -> (r: usize)
        ensures
            r == self@.len(),
    {
        self.proofs.len()
    }

    /// The proof at position `i`.
    pub fn get(&self, i: usize) -> (r: &EpochProof)
        requires
            i < self@.len(),
        ensures
            r@ == self@[i as int],
    {
        &self.proofs[i]
    }

    /// The last proof of the chain.
    pub fn last(&self) -> (r: &EpochProof)
        requires
            self.wf(),
        ensures
            r@ == self@.last(),
    {
        &self.proofs[self.proofs.len() - 1]
    }

    /// Appends the proof of the next epoch. It must start from the committee
    /// the chain ends at, under the next epoch id; otherwise the chain stays
    /// as it was.
    pub fn step(&mut self, next: EpochProof) -> (r: Result<(), ChainError>)
        requires
            old(self).wf(),
        ensures
            final(self).wf(),
            old(self)@.last().next != next@.prior ==> r == Err::<(), ChainError>(
                ChainError::CommitteeMismatch,
            ) && final(self)@ == old(self)@,
            old(self)@.last().next == next@.prior && next@.epoch_id != old(self)@.last().epoch_id
                + 1 ==> r == Err::<(), ChainError>(ChainError::EpochMismatch) && final(self)@ == old(
                self,
            )@,
            adjacent(old(self)@.last(), next@) ==> r == Ok::<(), ChainError>(()) && final(self)@
                == old(self)@.push(next@),
    {
        let n = self.proofs.len();
        let last = &self.proofs[n - 1];
        if !bytes_equal(&last.next_committee_hash, &next.prior_committee_hash) {
            return Err(ChainError::CommitteeMismatch);
        }
        if last.epoch_id == u64::MAX || next.epoch_id != last.epoch_id + 1 {
            return Err(ChainError::EpochMismatch);
        }
        let ghost before = self@;
        self.proofs.push(next);
        assert(self@ =~= before.push(next@));
        assert(is_chain(self@)) by {
            assert forall|i: int| 0 <= i < self@.len() - 1 implies adjacent(
                #[trigger] self@[i],
                self@[i + 1],
            ) by {
                if i < before.len() - 1 {
                    assert(adjacent(before[i], before[i + 1]));
                }
            }
        }
        Ok(())
    }
}

/// Why the terminal step refuses its inputs, if it does.
pub open spec fn final_error(
    chain_end: Seq<u8>,
    finality: &FinalityStatement,
    inclusion: &InclusionStatement,
    message_hash: Seq<u8>,
) -> Option<ChainError> {
    if finality.validator_set_hash@ != chain_end {
        Some(ChainError::CommitteeMismatch)
    } else if inclusion.block_hash@ != vote_block_hash(finality.message@) {
        Some(ChainError::BlockHashMismatch)
    } else if message_hash != inclusion.storage_item_hash@ {
        Some(ChainError::MessageHashMismatch)
    } else {
        None
    }
}

/// The terminal step, given the hash of the message: the statement that
/// `message` was included in a block finalized by the committee the chain
/// ends at. The finality statement must be signed by that committee, the
/// inclusion statement must speak of the block the vote finalizes, and
/// `message_hash` must be the hash the trie proved.
pub fn prove_final_with_hash(
    chain: &ProofChain,
    finality: &FinalityStatement,
    inclusion: &InclusionStatement,
    message: &Vec<u8>,
    message_hash: &Vec<u8>,
) -> (r: Result<MessageStatement, ChainError>)
    requires
        chain.wf(),
        finality.message@.len() == VOTE_MESSAGE_SIZE,
    ensures
        match final_error(chain@.last().next, finality, inclusion, message_hash@) {
            Some(e) => r == Err::<MessageStatement, ChainError>(e),
            None => r matches Ok(s) && s.genesis_committee_hash@ == chain@[0].prior
                && s.block_hash@ == inclusion.block_hash@ && s.message@ == message@,
        },
{
    let last = chain.last();
    if !bytes_equal(&finality.validator_set_hash, &last.next_committee_hash) {
        return Err(ChainError::CommitteeMismatch);
    }
    let voted_block = vote_block_hash_of(&finality.message);
    if !bytes_equal(&inclusion.block_hash, &voted_block) {
        return Err(ChainError::BlockHashMismatch);
    }
    if !bytes_equal(message_hash, &inclusion.storage_item_hash) {
        return Err(ChainError::MessageHashMismatch);
    }
    let first = chain.get(0);
    Ok(
        MessageStatement {
            genesis_committee_hash: first.prior_committee_hash.clone(),
            block_hash: inclusion.block_hash.clone(),
            message: message.clone(),
        },
    )
}


/// The terminal step: hashes the message and goes on as
/// `prove_final_with_hash` does with that hash.
pub fn prove_final(
    chain: &ProofChain,
    finality: &FinalityStatement,
    inclusion: &InclusionStatement,
    message: &Vec<u8>,
) -> (r: Result<MessageStatement, ChainError>)
    requires
        chain.wf(),
        finality.message@.len() == VOTE_MESSAGE_SIZE,
    ensures
        match final_error(chain@.last().next, finality, inclusion, blake2b256_of(message@)) {
            Some(e) => r == Err::<MessageStatement, ChainError>(e),
            None => r matches Ok(s) && s.genesis_committee_hash@ == chain@[0].prior
                && s.block_hash@ == inclusion.block_hash@ && s.message@ == message@,
        },
{
    let message_hash = blake2b256(message);
    prove_final_with_hash(chain, finality, inclusion, message, &message_hash)
}

/// Why the driver aborts a run.
#[derive(Debug, PartialEq, Eq, Structural, Clone, Copy)]
pub enum DriverError {
    /// A composition has no satisfying witness.
    Composition(CompositionError),
    /// The chain refuses the proof.
    Chain(ChainError),
}

/// The transition that an epoch's inputs state, when the extraction
/// composer accepts them.
pub open spec fn transition_of(step: &NextValidatorSet) -> EpochStatement {
    EpochStatement {
        prior: step.current_epoch_block_finality.validator_set_hash@,
        next: committee_commitment(committee_of_blob(step.next_validator_set_storage_data@)),
        epoch_id: vote_set_id(step.current_epoch_block_finality.message@),
    }
}

/// Whether an epoch's inputs have the fixed layout: a vote message and a
/// stored committee record of the fixed lengths.
pub open spec fn has_fixed_layout(step: &NextValidatorSet) -> bool {
    &&& step.current_epoch_block_finality.message@.len() == VOTE_MESSAGE_SIZE
    &&& step.next_validator_set_storage_data@.len() == STORAGE_SIZE
}

/// Why the extraction composer refuses an epoch's inputs, if it does.
pub open spec fn step_error(step: &NextValidatorSet) -> Option<
    CompositionError,
> {
    extraction_error(
        step.current_epoch_block_finality.message@,
        step.next_validator_set_inclusion_proof.block_hash@,
        step.next_validator_set_inclusion_proof.storage_item_hash@,
        blake2b256_of(step.next_validator_set_storage_data@),
    )
}

/// Genesis: proves the transition of the configured starting epoch and
/// starts the chain with it.
pub fn prove_genesis(
    config: &GenesisConfig,
    step: &NextValidatorSet,
) -> (r: Result<ProofChain, DriverError>)
    requires
        has_fixed_layout(step),
    ensures
        match step_error(step) {
            Some(e) => r == Err::<ProofChain, DriverError>(DriverError::Composition(e)),
            None => {
                let t = transition_of(step);
                &&& t.prior != config.committee_hash@ ==> r == Err::<ProofChain, DriverError>(
                    DriverError::Chain(ChainError::GenesisCommitteeMismatch),
                )
                &&& t.prior == config.committee_hash@ && t.epoch_id != config.starting_epoch_id
                    ==> r == Err::<ProofChain, DriverError>(
                    DriverError::Chain(ChainError::GenesisEpochMismatch),
                )
                &&& t.prior == config.committee_hash@ && t.epoch_id == config.starting_epoch_id
                    ==> (r matches Ok(c) && c.wf() && c@ == seq![t])
            },
        },
{
    let first = match step.prove() {
        Ok(p) => p,
        Err(e) => {
            return Err(DriverError::Composition(e));
        },
    };
    match ProofChain::genesis(config, first) {
        Ok(c) => Ok(c),
        Err(e) => Err(DriverError::Chain(e)),
    }
}

/// One step of the chain: proves the next epoch's transition and appends it,
/// where it continues the chain. On any failure the chain stays as it was.
pub fn prove_validator_set_change(
    chain: &mut ProofChain,
    step: &NextValidatorSet,
) -> (r: Result<(), DriverError>)
    requires
        old(chain).wf(),
        has_fixed_layout(step),
    ensures
        final(chain).wf(),
        match step_error(step) {
            Some(e) => r == Err::<(), DriverError>(DriverError::Composition(e)) && final(chain)@
                == old(chain)@,
            None => {
                let t = transition_of(step);
                &&& old(chain)@.last().next != t.prior ==> r == Err::<(), DriverError>(
                    DriverError::Chain(ChainError::CommitteeMismatch),
                ) && final(chain)@ == old(chain)@
                &&& old(chain)@.last().next == t.prior && t.epoch_id != old(chain)@.last().epoch_id
                    + 1 ==> r == Err::<(), DriverError>(
                    DriverError::Chain(ChainError::EpochMismatch),
                ) && final(chain)@ == old(chain)@
                &&& adjacent(old(chain)@.last(), t) ==> r == Ok::<(), DriverError>(())
                    && final(chain)@ == old(chain)@.push(t)
            },
        },
{
    let next = match step.prove() {
        Ok(p) => p,
        Err(e) => {
            return Err(DriverError::Composition(e));
        },
    };
    match chain.step(next) {
        Ok(()) => Ok(()),
        Err(e) => Err(DriverError::Chain(e)),
    }
}

/// Chain adjacency: in every well-formed chain each proof ends at the
/// committee the next one starts from, and epoch ids go up by one.
pub proof fn lemma_chain_adjacent(c: &ProofChain, i: int)
    requires
        c.wf(),
        0 <= i < c@.len() - 1,
    ensures
        c@[i].next == c@[i + 1].prior,
        c@[i + 1].epoch_id == c@[i].epoch_id + 1,
{
    assert(adjacent(c@[i], c@[i + 1]));
}

/// A step over the stored record of a committee that fits goes, when it is
/// accepted, to the commitment to that committee padded to capacity.
pub proof fn lemma_step_commits_to_stored_committee(step: &NextValidatorSet, c: Seq<Seq<u8>>)
    requires
        committee_fits(c),
        step.next_validator_set_storage_data@ == serialized(c),
    ensures
        transition_of(step).next == committee_commitment(padded(c)),
{
    lemma_stored_committee(c);
}

} // verus!
