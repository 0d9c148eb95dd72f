//! The environment of the circuits: the cryptographic primitives that records
//! and state paths are checked with.
use vstd::prelude::*;
use crate::field::Field;
use crate::state_path::MerklePath;
use crate::value::{Group, Scalar};

verus! {

/// The cryptographic environment that a network provides: its hash functions,
/// its Merkle path check, its scalar multiplication and its domain separators.
/// Each operation is a function of its arguments, named here by a spec function.
pub trait Aleo {
    /// The domain separator of record encryption.
    spec fn spec_encryption_domain() -> Field;

    /// The `num_outputs` field elements that the Poseidon sponge of rate 8
    /// squeezes out of `input`.
    spec fn spec_hash_many_psd8(input: Seq<Field>, num_outputs: u16) -> Seq<Field>;

    /// The point `scalar · point`.
    spec fn spec_scalar_multiply(point: Group, scalar: Scalar) -> Group;

    /// Whether `path` leads from the leaf with the bits `leaf` to `root` under the
    /// BHP hash.
    spec fn spec_verify_merkle_path_bhp(path: MerklePath, root: Field, leaf: Seq<bool>) -> bool;

    /// The BHP hash of 1024-bit windows of `input`.
    spec fn spec_hash_bhp1024(input: Seq<bool>) -> Field;

    /// Returns the domain separator of record encryption.
    fn encryption_domain() -> (r: Field)
        ensures
            r == Self::spec_encryption_domain(),
    ;

    /// Returns `num_outputs` field elements squeezed out of `input`.
    fn hash_many_psd8(input: &[Field], num_outputs: u16) -> (r: Vec<Field>)
        ensures
            r@ == Self::spec_hash_many_psd8(input@, num_outputs),
            r@.len() == num_outputs,
    ;

    /// Returns `scalar · point`.
    fn scalar_multiply(point: &Group, scalar: &Scalar) -> (r: Group)
        ensures
            r == Self::spec_scalar_multiply(*point, *scalar),
    ;

    /// Returns whether `path` leads from the leaf `leaf` to `root`.
    fn verify_merkle_path_bhp(path: &MerklePath, root: &Field, leaf: &[bool]) -> (r: bool)
        ensures
            r == Self::spec_verify_merkle_path_bhp(*path, *root, leaf@),
    ;

    /// Returns the BHP hash of `input`.
    fn hash_bhp1024(input: &[bool]) -> (r: Field)
        ensures
            r == Self::spec_hash_bhp1024(input@),
    ;
}

} // verus!
