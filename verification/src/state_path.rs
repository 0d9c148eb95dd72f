//! State paths: the chain of Merkle paths that proves that a transition is in
//! the state, either under the global state root or under the local one.
use vstd::prelude::*;
use crate::aleo::Aleo;
use crate::field::{Field, field_bits};

verus! {

/// A Merkle path: the index of the leaf and the siblings along the path.
#[derive(Debug)]
pub struct MerklePath {
    pub leaf_index: u64,
    pub siblings: Vec<Field>,
}

/// The leaf of a transition in its transaction's tree.
#[derive(Clone, Copy, Debug, PartialEq, Eq, Structural)]
pub struct TransitionLeaf {
    pub version: u8,
    pub index: u8,
    pub variant: u8,
    pub id: Field,
}

/// The leaf of a transaction in its transactions tree.
#[derive(Clone, Copy, Debug, PartialEq, Eq, Structural)]
pub struct TransactionLeaf {
    pub variant: u8,
    pub index: u16,
    pub id: Field,
}

/// The leaf of a block header in the header tree.
#[derive(Clone, Copy, Debug, PartialEq, Eq, Structural)]
pub struct HeaderLeaf {
    pub index: u8,
    pub id: Field,
}

/// The variant of a transition leaf that holds a record input.
pub const TRANSITION_VARIANT_RECORD_INPUT: u8 = 3;

/// The variant of a transaction leaf that holds an execution.
pub const TRANSACTION_VARIANT_EXECUTION: u8 = 1;

/// The index of the transactions root among the header leaves.
pub const HEADER_INDEX_TRANSACTIONS_ROOT: u8 = 1;

/// The bits of a byte, least significant first.
pub open spec fn u8_bits(x: u8) -> Seq<bool> {
    Seq::new(8, |i: int| (x >> (i as u8)) & 1 == 1)
}

/// The bits of a 16-bit integer, least significant first.
pub open spec fn u16_bits(x: u16) -> Seq<bool> {
    Seq::new(16, |i: int| (x >> (i as u16)) & 1 == 1)
}

/// The bits of a transition leaf: version, index, variant, id.
pub open spec fn transition_leaf_bits(l: TransitionLeaf) -> Seq<bool> {
    u8_bits(l.version) + u8_bits(l.index) + u8_bits(l.variant) + field_bits(l.id)
}

/// The bits of a transaction leaf: variant, index, id.
pub open spec fn transaction_leaf_bits(l: TransactionLeaf) -> Seq<bool> {
    u8_bits(l.variant) + u16_bits(l.index) + field_bits(l.id)
}

/// The bits of a header leaf: index, id.
pub open spec fn header_leaf_bits(l: HeaderLeaf) -> Seq<bool> {
    u8_bits(l.index) + field_bits(l.id)
}

fn write_u8_bits(x: u8, bits: &mut Vec<bool>)
    ensures
        final(bits)@ == old(bits)@ + u8_bits(x),
{
    let ghost start = bits@;
    for i in 0..8u8
        invariant
            bits@ == start + u8_bits(x).take(i as int),
    {
        let b = (x >> i) & 1 == 1;
        bits.push(b);
        assert(u8_bits(x).take(i + 1) =~= u8_bits(x).take(i as int).push(b));
    }
    assert(u8_bits(x).take(8) =~= u8_bits(x));
}

fn write_u16_bits(x: u16, bits: &mut Vec<bool>)
    ensures
        final(bits)@ == old(bits)@ + u16_bits(x),
{
    let ghost start = bits@;
    for i in 0..16u16
        invariant
            bits@ == start + u16_bits(x).take(i as int),
    {
        let b = (x >> i) & 1 == 1;
        bits.push(b);
        assert(u16_bits(x).take(i + 1) =~= u16_bits(x).take(i as int).push(b));
    }
    assert(u16_bits(x).take(16) =~= u16_bits(x));
}

impl TransitionLeaf {
    /// The bits of the leaf, least significant first in each part.
    pub fn to_bits_le(&self) -> (r: Vec<bool>)
        ensures
            r@ == transition_leaf_bits(*self),
    {
        let mut r: Vec<bool> = Vec::new();
        write_u8_bits(self.version, &mut r);
        write_u8_bits(self.index, &mut r);
        write_u8_bits(self.variant, &mut r);
        self.id.write_bits_le(&mut r);
        assert(r@ =~= transition_leaf_bits(*self));
        r
    }
}

impl TransactionLeaf {
    /// The bits of the leaf, least significant first in each part.
    pub fn to_bits_le(&self) -> (r: Vec<bool>)
        ensures
            r@ == transaction_leaf_bits(*self),
    {
        let mut r: Vec<bool> = Vec::new();
        write_u8_bits(self.variant, &mut r);
        write_u16_bits(self.index, &mut r);
        self.id.write_bits_le(&mut r);
        assert(r@ =~= transaction_leaf_bits(*self));
        r
    }
}

impl HeaderLeaf {
    /// The bits of the leaf, least significant first in each part.
    pub fn to_bits_le(&self) -> (r: Vec<bool>)
        ensures
            r@ == header_leaf_bits(*self),
    {
        let mut r: Vec<bool> = Vec::new();
        write_u8_bits(self.index, &mut r);
        self.id.write_bits_le(&mut r);
        assert(r@ =~= header_leaf_bits(*self));
        r
    }
}

/// The path from a transition to the global state root: through its
/// transaction, the block's transactions root, the block header and the block
/// tree.
#[derive(Debug)]
pub struct StatePath {
    pub global_state_root: Field,
    pub block_path: MerklePath,
    pub block_hash: Field,
    pub previous_block_hash: Field,
    pub header_root: Field,
    pub header_path: MerklePath,
    pub header_leaf: HeaderLeaf,
    pub transactions_path: MerklePath,
    pub transaction_id: Field,
    pub transaction_path: MerklePath,
    pub transaction_leaf: TransactionLeaf,
    pub transition_path: MerklePath,
    pub transition_leaf: TransitionLeaf,
}

/// The transition leaf is a record input under the transaction leaf's id.
pub open spec fn spec_check_transition_path<A: Aleo>(p: StatePath) -> bool {
    A::spec_verify_merkle_path_bhp(p.transition_path, p.transaction_leaf.id, transition_leaf_bits(p.transition_leaf))
        && p.transition_leaf.variant == TRANSITION_VARIANT_RECORD_INPUT
}

/// The transaction leaf is an execution under the transaction id.
pub open spec fn spec_check_transaction_path<A: Aleo>(p: StatePath) -> bool {
    A::spec_verify_merkle_path_bhp(p.transaction_path, p.transaction_id, transaction_leaf_bits(p.transaction_leaf))
        && p.transaction_leaf.variant == TRANSACTION_VARIANT_EXECUTION
}

/// The transaction id is under the header leaf's id (the transactions root).
pub open spec fn spec_check_transactions_path<A: Aleo>(p: StatePath) -> bool {
    A::spec_verify_merkle_path_bhp(p.transactions_path, p.header_leaf.id, field_bits(p.transaction_id))
}

/// The header leaf is the transactions root under the header root.
pub open spec fn spec_check_header_path<A: Aleo>(p: StatePath) -> bool {
    A::spec_verify_merkle_path_bhp(p.header_path, p.header_root, header_leaf_bits(p.header_leaf))
        && p.header_leaf.index == HEADER_INDEX_TRANSACTIONS_ROOT
}

/// The block hash is the hash of the previous block hash and the header root.
pub open spec fn spec_check_block_hash<A: Aleo>(p: StatePath) -> bool {
    A::spec_hash_bhp1024(field_bits(p.previous_block_hash) + field_bits(p.header_root)) == p.block_hash
}

/// The block hash is under the global state root.
pub open spec fn spec_check_state_root<A: Aleo>(p: StatePath) -> bool {
    A::spec_verify_merkle_path_bhp(p.block_path, p.global_state_root, field_bits(p.block_hash))
}

/// The path is valid for the local state root: the transition is in the
/// transaction, whose id is the local state root.
pub open spec fn spec_valid_local<A: Aleo>(p: StatePath, local_state_root: Field) -> bool {
    spec_check_transition_path::<A>(p) && spec_check_transaction_path::<A>(p) && local_state_root
        == p.transaction_id
}

/// The path is valid for the global state root: every link up to the global
/// state root holds.
pub open spec fn spec_valid_global<A: Aleo>(p: StatePath) -> bool {
    &&& spec_check_transition_path::<A>(p)
    &&& spec_check_transaction_path::<A>(p)
    &&& spec_check_transactions_path::<A>(p)
    &&& spec_check_header_path::<A>(p)
    &&& spec_check_block_hash::<A>(p)
    &&& spec_check_state_root::<A>(p)
}

impl StatePath {
    /// Returns whether the state path is valid: up to the global state root when
    /// `is_global`, else up to `local_state_root`.
    pub fn verify<A: Aleo>(&self, is_global: bool, local_state_root: &Field) -> (r: bool)
        ensures
            r == if is_global {
                spec_valid_global::<A>(*self)
            } else {
                spec_valid_local::<A>(*self, *local_state_root)
            },
    {
        let transition_bits = self.transition_leaf.to_bits_le();
        let check_transition_path = A::verify_merkle_path_bhp(
            &self.transition_path,
            &self.transaction_leaf.id,
            transition_bits.as_slice(),
        );
        let check_transition_path = check_transition_path && (self.transition_leaf.variant == TRANSITION_VARIANT_RECORD_INPUT);

        let transaction_bits = self.transaction_leaf.to_bits_le();
        let check_transaction_path = A::verify_merkle_path_bhp(
            &self.transaction_path,
            &self.transaction_id,
            transaction_bits.as_slice(),
        );
        let check_transaction_path = check_transaction_path && (self.transaction_leaf.variant == TRANSACTION_VARIANT_EXECUTION);

        let transaction_id_bits = self.transaction_id.to_bits_le();
        let check_transactions_path = A::verify_merkle_path_bhp(
            &self.transactions_path,
            &self.header_leaf.id,
            transaction_id_bits.as_slice(),
        );

        let header_bits = self.header_leaf.to_bits_le();
        let check_header_path = A::verify_merkle_path_bhp(
            &self.header_path,
            &self.header_root,
            header_bits.as_slice(),
        );
        let check_header_path = check_header_path && (self.header_leaf.index == HEADER_INDEX_TRANSACTIONS_ROOT);

        let mut preimage: Vec<bool> = Vec::new();
        self.previous_block_hash.write_bits_le(&mut preimage);
        self.header_root.write_bits_le(&mut preimage);
        assert(preimage@ =~= field_bits(self.previous_block_hash) + field_bits(self.header_root));
        let check_block_hash = A::hash_bhp1024(preimage.as_slice()) == self.block_hash;

        let block_hash_bits = self.block_hash.to_bits_le();
        let check_state_root = A::verify_merkle_path_bhp(
            &self.block_path,
            &self.global_state_root,
            block_hash_bits.as_slice(),
        );

        let check_transition_and_transaction_path = check_transition_path && check_transaction_path;
        let check_local = check_transition_and_transaction_path && (*local_state_root == self.transaction_id);
        let check_global = check_transition_and_transaction_path && check_transactions_path
            && check_header_path && check_block_hash && check_state_root;

        if is_global {
            check_global
        } else {
            check_local
        }
    }
}

/// A path that is valid for a local state root proves that root to be the
/// transaction id.
pub proof fn lemma_valid_local_root_is_transaction_id<A: Aleo>(p: StatePath, local_state_root: Field)
    ensures
        spec_valid_local::<A>(p, local_state_root) ==> local_state_root == p.transaction_id,
{
}

/// The local and the global checks share the transition and transaction paths:
/// a path valid for the global root is valid for the local root that is its
/// transaction id, whatever the rest of the path.
pub proof fn lemma_valid_global_is_valid_local<A: Aleo>(p: StatePath)
    ensures
        spec_valid_global::<A>(p) ==> spec_valid_local::<A>(p, p.transaction_id),
{
}

/// What a valid local path proves: the transition leaf (a record input) is in
/// the transaction leaf's tree, the transaction leaf (an execution) is in the
/// tree of the transaction id, and the local root is that id. A path of which
/// all of this holds is valid for that root, whatever its block and header.
pub proof fn lemma_valid_local_links<A: Aleo>(p: StatePath, local_state_root: Field)
    ensures
        spec_valid_local::<A>(p, local_state_root) <==> {
            &&& A::spec_verify_merkle_path_bhp(
                p.transition_path,
                p.transaction_leaf.id,
                u8_bits(p.transition_leaf.version) + u8_bits(p.transition_leaf.index) + u8_bits(
                    p.transition_leaf.variant,
                ) + field_bits(p.transition_leaf.id),
            )
            &&& p.transition_leaf.variant == 3
            &&& A::spec_verify_merkle_path_bhp(
                p.transaction_path,
                p.transaction_id,
                u8_bits(p.transaction_leaf.variant) + u16_bits(p.transaction_leaf.index) + field_bits(
                    p.transaction_leaf.id,
                ),
            )
            &&& p.transaction_leaf.variant == 1
            &&& local_state_root == p.transaction_id
        },
{
}

/// What a valid global path proves: besides the transition and transaction
/// links, the transaction id is in the tree of the header leaf's id, the header
/// leaf is the transactions root (index 1) in the tree of the header root, the
/// block hash is the BHP hash of the previous block hash's 253 bits followed by
/// the header root's 253 bits, and the block hash is in the tree of the global
/// state root. A path of which all of this holds is valid, whatever the local
/// root.
pub proof fn lemma_valid_global_links<A: Aleo>(p: StatePath)
    ensures
        spec_valid_global::<A>(p) <==> {
            &&& spec_valid_local::<A>(p, p.transaction_id)
            &&& A::spec_verify_merkle_path_bhp(p.transactions_path, p.header_leaf.id, field_bits(p.transaction_id))
            &&& A::spec_verify_merkle_path_bhp(
                p.header_path,
                p.header_root,
                u8_bits(p.header_leaf.index) + field_bits(p.header_leaf.id),
            )
            &&& p.header_leaf.index == 1
            &&& p.block_hash == A::spec_hash_bhp1024(field_bits(p.previous_block_hash) + field_bits(p.header_root))
            &&& A::spec_verify_merkle_path_bhp(p.block_path, p.global_state_root, field_bits(p.block_hash))
        },
{
    lemma_valid_local_links::<A>(p, p.transaction_id);
}

/// The bits of a byte, of a 16-bit integer and of a field element are as many as
/// their widths, and each bit is the matching bit of the value.
pub proof fn lemma_bits_widths(x: u8, y: u16, f: Field)
    ensures
        u8_bits(x).len() == 8,
        u16_bits(y).len() == 16,
        field_bits(f).len() == 253,
        forall|i: int| 0 <= i < 8 ==> #[trigger] u8_bits(x)[i] == ((x >> (i as u8)) & 1 == 1),
        forall|i: int| 0 <= i < 16 ==> #[trigger] u16_bits(y)[i] == ((y >> (i as u16)) & 1 == 1),
{
}

} // verus!
