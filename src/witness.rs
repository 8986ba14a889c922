//! Witnesses as the chain client returns them, and their conversion into the
//! form the proving primitives take: branch nodes turned to leaf-to-root
//! order, the vote message held to its fixed length, storage keys as nibbles.
use vstd::prelude::*;
use crate::statements::VOTE_MESSAGE_SIZE;

verus! {

/// A trie branch node as the chain client returns it.
pub struct RpcBranchNode {
    pub data: Vec<u8>,
    pub target_child: u8,
}

/// A storage inclusion proof as the chain client returns it, branch nodes
/// ordered from the root to the leaf.
pub struct RpcInclusionProof {
    pub block_header: Vec<u8>,
    pub branch_nodes_data: Vec<RpcBranchNode>,
    pub leaf_node_data: Vec<u8>,
    pub stored_data: Vec<u8>,
}

/// One signature of a finality proof as the chain client returns it.
pub struct RpcPreCommit {
    pub public_key: Vec<u8>,
    pub signature: Vec<u8>,
}

/// A block finality proof as the chain client returns it.
pub struct RpcFinalityProof {
    pub validator_set: Vec<Vec<u8>>,
    pub pre_commits: Vec<RpcPreCommit>,
    pub message: Vec<u8>,
}

/// A trie branch node as the inclusion primitive takes it.
pub struct BranchNodeData {
    pub data: Vec<u8>,
    pub child_nibble: u8,
}

/// The inclusion primitive's witness, branch nodes ordered from the leaf to
/// the root.
pub struct StorageInclusion {
    pub block_header_data: Vec<u8>,
    pub branch_node_data: Vec<BranchNodeData>,
    pub leaf_node_data: Vec<u8>,
    pub address_nibbles: Vec<u8>,
}

/// One signature as the finality primitive takes it.
pub struct PreCommit {
    pub public_key: Vec<u8>,
    pub signature: Vec<u8>,
}

/// The finality primitive's witness; its message has the fixed length.
pub struct BlockFinality {
    pub validator_set: Vec<Vec<u8>>,
    pub pre_commits: Vec<PreCommit>,
    pub message: Vec<u8>,
}

/// A branch node as a pair of its data and its child nibble.
pub open spec fn rpc_node_view(n: RpcBranchNode) -> (Seq<u8>, u8) {
    (n.data@, n.target_child)
}

/// A branch node as a pair of its data and its child nibble.
pub open spec fn node_view(n: BranchNodeData) -> (Seq<u8>, u8) {
    (n.data@, n.child_nibble)
}

/// A signature as a pair of its key and its signature bytes.
pub open spec fn rpc_pre_commit_view(p: RpcPreCommit) -> (Seq<u8>, Seq<u8>) {
    (p.public_key@, p.signature@)
}

/// A signature as a pair of its key and its signature bytes.
pub open spec fn pre_commit_view(p: PreCommit) -> (Seq<u8>, Seq<u8>) {
    (p.public_key@, p.signature@)
}

/// The nibbles of a byte string, high nibble first.
pub open spec fn nibbles_of(b: Seq<u8>) -> Seq<u8> {
    Seq::new(
        (2 * b.len()) as nat,
        |k: int| if k % 2 == 0 { b[k / 2] >> 4u8 } else { b[k / 2] & 15u8 },
    )
}

/// Converts an inclusion proof of the chain client into the primitive's
/// witness for the storage key `address_nibbles`, reversing the branch nodes
/// into leaf-to-root order.
pub fn parse_rpc_inclusion_proof(proof: RpcInclusionProof, address_nibbles: Vec<u8>) -> (r:
    StorageInclusion)
    ensures
        r.block_header_data@ == proof.block_header@,
        r.leaf_node_data@ == proof.leaf_node_data@,
        r.address_nibbles@ == address_nibbles@,
        r.branch_node_data@.map_values(|n: BranchNodeData| node_view(n))
            == proof.branch_nodes_data@.map_values(|n: RpcBranchNode| rpc_node_view(n)).reverse(),
{
    let RpcInclusionProof { block_header, branch_nodes_data, leaf_node_data, stored_data: _ } =
        proof;
    let ghost src = branch_nodes_data@.map_values(|n: RpcBranchNode| rpc_node_view(n));
    let mut rest = branch_nodes_data;
    let mut out: Vec<BranchNodeData> = Vec::new();
    while rest.len() > 0
        invariant
            src.len() == rest@.len() + out@.len(),
            forall|k: int| 0 <= k < rest@.len() ==> rpc_node_view(#[trigger] rest@[k]) == src[k],
            forall|k: int|
                0 <= k < out@.len() ==> node_view(#[trigger] out@[k]) == src[src.len() - 1 - k],
        decreases rest@.len(),
    {
        let n = rest.pop().unwrap();
        out.push(BranchNodeData { data: n.data, child_nibble: n.target_child });
    }
    assert(out@.map_values(|n: BranchNodeData| node_view(n)) =~= src.reverse());
    StorageInclusion {
        block_header_data: block_header,
        branch_node_data: out,
        leaf_node_data,
        address_nibbles,
    }
}

/// Converts a finality proof of the chain client into the primitive's
/// witness. The vote message has the fixed length: any other length is a
/// protocol mismatch, which callers rule out before the call.
pub fn parse_rpc_block_finality_proof(proof: RpcFinalityProof) -> (r: BlockFinality)
    requires
        proof.message@.len() == VOTE_MESSAGE_SIZE,
    ensures
        r.message@ == proof.message@,
        r.validator_set.deep_view() == proof.validator_set.deep_view(),
        r.pre_commits@.map_values(|p: PreCommit| pre_commit_view(p)) == proof.pre_commits@.map_values(
            |p: RpcPreCommit| rpc_pre_commit_view(p),
        ),
{
    let RpcFinalityProof { validator_set, pre_commits, message } = proof;
    let mut out: Vec<PreCommit> = Vec::new();
    let mut i: usize = 0;
    while i < pre_commits.len()
        invariant
            0 <= i <= pre_commits@.len(),
            out@.len() == i,
            forall|k: int|
                0 <= k < i ==> pre_commit_view(#[trigger] out@[k]) == rpc_pre_commit_view(
                    pre_commits@[k],
                ),
        decreases pre_commits@.len() - i,
    {
        let pc = &pre_commits[i];
        out.push(PreCommit { public_key: pc.public_key.clone(), signature: pc.signature.clone() });
        i = i + 1;
    }
    assert(out@.map_values(|p: PreCommit| pre_commit_view(p)) =~= pre_commits@.map_values(
        |p: RpcPreCommit| rpc_pre_commit_view(p),
    ));
    BlockFinality { validator_set, pre_commits: out, message }
}

/// The nibbles of a byte string, high nibble first: a 32-byte storage key
/// becomes the 64-nibble trie path.
pub fn bytes_to_nibbles(b: &Vec<u8>) -> (r: Vec<u8>)
    requires
        2 * b@.len() <= usize::MAX,
    ensures
        r@ == nibbles_of(b@),
{
    let mut out: Vec<u8> = Vec::new();
    let mut i: usize = 0;
    while i < b.len()
        invariant
            0 <= i <= b@.len(),
            2 * b@.len() <= usize::MAX,
            out@.len() == 2 * i,
            forall|k: int| 0 <= k < 2 * i ==> #[trigger] out@[k] == nibbles_of(b@)[k],
        decreases b@.len() - i,
    {
        proof {
            assert((2 * i) / 2 == i && (2 * i) % 2 == 0 && (2 * i + 1) / 2 == i && (2 * i + 1) % 2
                == 1) by (nonlinear_arith);
        }
        out.push(b[i] >> 4u8);
        out.push(b[i] & 15u8);
        i = i + 1;
    }
    assert(out@ =~= nibbles_of(b@));
    out
}

/// The trie path of the storage entry that holds the next session keys.
pub fn next_session_keys_storage_address() -> (r: Vec<u8>)
    ensures
        r@ == nibbles_of(
            seq![
                0xeau8, 0x31, 0xe1, 0x71, 0xc2, 0xcd, 0x79, 0x0a, 0x23, 0x35, 0x0b, 0x5e, 0x59, 0x3e,
                0xd8, 0x82, 0x7d, 0x9f, 0xe3, 0x73, 0x70, 0xac, 0x39, 0x07, 0x79, 0xf3, 0x57, 0x63,
                0xd9, 0x81, 0x06, 0xe8,
            ],
        ),
{
    let key: Vec<u8> = vec![
        0xea, 0x31, 0xe1, 0x71, 0xc2, 0xcd, 0x79, 0x0a, 0x23, 0x35, 0x0b, 0x5e, 0x59, 0x3e, 0xd8,
        0x82, 0x7d, 0x9f, 0xe3, 0x73, 0x70, 0xac, 0x39, 0x07, 0x79, 0xf3, 0x57, 0x63, 0xd9, 0x81,
        0x06, 0xe8,
    ];
    bytes_to_nibbles(&key)
}

/// The trie path of the storage entry that holds the sent message.
pub fn message_storage_address() -> (r: Vec<u8>)
    ensures
        r@ == nibbles_of(
            seq![
                0xeau8, 0x31, 0xe1, 0x71, 0xc2, 0xcd, 0x79, 0x0a, 0x23, 0x35, 0x0b, 0x5e, 0x59, 0x3e,
                0xd8, 0x82, 0xdf, 0x50, 0x93, 0x10, 0xbc, 0x65, 0x5b, 0xbf, 0x75, 0xa5, 0xb5, 0x63,
                0xfc, 0x3c, 0x8e, 0xee,
            ],
        ),
{
    let key: Vec<u8> = vec![
        0xea, 0x31, 0xe1, 0x71, 0xc2, 0xcd, 0x79, 0x0a, 0x23, 0x35, 0x0b, 0x5e, 0x59, 0x3e, 0xd8,
        0x82, 0xdf, 0x50, 0x93, 0x10, 0xbc, 0x65, 0x5b, 0xbf, 0x75, 0xa5, 0xb5, 0x63, 0xfc, 0x3c,
        0x8e, 0xee,
    ];
    bytes_to_nibbles(&key)
}

} // verus!
