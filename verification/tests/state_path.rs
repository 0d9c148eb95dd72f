use lib::aleo::Aleo;
use lib::field::Field;
use lib::state_path::{HeaderLeaf, MerklePath, StatePath, TransactionLeaf, TransitionLeaf};
use lib::value::{Group, Scalar};
use vstd::seq::Seq;

/// An environment whose Merkle path is valid when its first sibling is the root,
/// and whose hash counts the set bits.
struct ToyAleo;

impl Aleo for ToyAleo {
    fn spec_encryption_domain() -> Field {
        unreachable!()
    }

    fn spec_hash_many_psd8(_input: Seq<Field>, _num_outputs: u16) -> Seq<Field> {
        unreachable!()
    }

    fn spec_scalar_multiply(_point: Group, _scalar: Scalar) -> Group {
        unreachable!()
    }

    fn spec_verify_merkle_path_bhp(_path: MerklePath, _root: Field, _leaf: Seq<bool>) -> bool {
        unreachable!()
    }

    fn spec_hash_bhp1024(_input: Seq<bool>) -> Field {
        unreachable!()
    }

    fn encryption_domain() -> Field {
        Field::zero()
    }

    fn hash_many_psd8(_input: &[Field], num_outputs: u16) -> Vec<Field> {
        vec![Field::zero(); num_outputs as usize]
    }

    fn scalar_multiply(point: &Group, _scalar: &Scalar) -> Group {
        *point
    }

    fn verify_merkle_path_bhp(path: &MerklePath, root: &Field, _leaf: &[bool]) -> bool {
        path.siblings.first() == Some(root)
    }

    fn hash_bhp1024(input: &[bool]) -> Field {
        Field::from_u128(input.iter().filter(|b| **b).count() as u128)
    }
}

fn f(x: u128) -> Field {
    Field::from_u128(x)
}

fn path_to(root: Field) -> MerklePath {
    MerklePath { leaf_index: 0, siblings: vec![root] }
}

/// A state path whose every link holds.
fn valid_path() -> StatePath {
    let transaction_id = f(0x1234);
    let header_root = f(0b1011);
    let previous_block_hash = f(0b111);
    // 3 set bits in the previous hash, 3 in the header root
    let block_hash = f(6);
    let global_state_root = f(0xabcd);
    let transactions_root = f(0x77);
    let transition_id = f(0x99);
    StatePath {
        global_state_root,
        block_path: path_to(global_state_root),
        block_hash,
        previous_block_hash,
        header_root,
        header_path: path_to(header_root),
        header_leaf: HeaderLeaf { index: 1, id: transactions_root },
        transactions_path: path_to(transactions_root),
        transaction_id,
        transaction_path: path_to(transaction_id),
        transaction_leaf: TransactionLeaf { variant: 1, index: 0, id: transition_id },
        transition_path: path_to(transition_id),
        transition_leaf: TransitionLeaf { version: 0, index: 0, variant: 3, id: f(5) },
    }
}

#[test]
fn test_state_path_valid_global_and_local() {
    let p = valid_path();
    let any_root = f(31337);
    assert!(p.verify::<ToyAleo>(true, &any_root));
    assert!(p.verify::<ToyAleo>(false, &p.transaction_id));
    assert!(!p.verify::<ToyAleo>(false, &any_root));
}

#[test]
fn test_state_path_wrong_block_hash() {
    let mut p = valid_path();
    p.block_hash = f(7);
    p.block_path = path_to(p.global_state_root);
    assert!(!p.verify::<ToyAleo>(true, &p.transaction_id));
    // the local check does not look at the block
    assert!(p.verify::<ToyAleo>(false, &p.transaction_id));
}

#[test]
fn test_state_path_wrong_transition_variant() {
    let mut p = valid_path();
    p.transition_leaf.variant = 2;
    assert!(!p.verify::<ToyAleo>(true, &p.transaction_id));
    assert!(!p.verify::<ToyAleo>(false, &p.transaction_id));
}

#[test]
fn test_state_path_wrong_transaction_variant() {
    let mut p = valid_path();
    p.transaction_leaf.variant = 0;
    assert!(!p.verify::<ToyAleo>(true, &p.transaction_id));
    assert!(!p.verify::<ToyAleo>(false, &p.transaction_id));
}

#[test]
fn test_state_path_wrong_header_index() {
    let mut p = valid_path();
    p.header_leaf.index = 0;
    assert!(!p.verify::<ToyAleo>(true, &p.transaction_id));
    assert!(p.verify::<ToyAleo>(false, &p.transaction_id));
}

#[test]
fn test_state_path_broken_paths() {
    let mut p = valid_path();
    p.transactions_path = path_to(f(1));
    assert!(!p.verify::<ToyAleo>(true, &p.transaction_id));
    assert!(p.verify::<ToyAleo>(false, &p.transaction_id));
    let mut q = valid_path();
    q.transition_path = path_to(f(1));
    assert!(!q.verify::<ToyAleo>(false, &q.transaction_id));
    let mut r = valid_path();
    r.block_path = path_to(f(1));
    assert!(!r.verify::<ToyAleo>(true, &r.transaction_id));
}

#[test]
fn test_leaf_bits() {
    let leaf = TransitionLeaf { version: 1, index: 2, variant: 3, id: f(0b101) };
    let bits = leaf.to_bits_le();
    assert_eq!(bits.len(), 8 * 3 + 253);
    assert_eq!(&bits[0..8], &[true, false, false, false, false, false, false, false]);
    assert_eq!(&bits[8..16], &[false, true, false, false, false, false, false, false]);
    assert_eq!(&bits[16..24], &[true, true, false, false, false, false, false, false]);
    assert_eq!(&bits[24..27], &[true, false, true]);
    assert!(bits[27..].iter().all(|b| !*b));

    let t = TransactionLeaf { variant: 1, index: 0x0100, id: f(1) };
    let bits = t.to_bits_le();
    assert_eq!(bits.len(), 8 + 16 + 253);
    assert!(bits[0]);
    assert!(bits[8 + 8]);
    assert!(bits[24]);

    let h = HeaderLeaf { index: 1, id: Field::from_limbs(0, 1).unwrap() };
    let bits = h.to_bits_le();
    assert_eq!(bits.len(), 8 + 253);
    assert!(bits[0]);
    assert!(bits[8 + 128]);
    assert_eq!(bits.iter().filter(|b| **b).count(), 2);
}

#[test]
fn test_field_bits() {
    let x = Field::from_limbs(u128::MAX, 3).unwrap();
    let bits = x.to_bits_le();
    assert_eq!(bits.len(), 253);
    assert!(bits[..130].iter().all(|b| *b));
    assert!(bits[130..].iter().all(|b| !*b));
}

/// A pseudo-random field element from a counter.
fn sample_field(seed: &mut u128) -> Field {
    *seed = seed.wrapping_mul(6364136223846793005).wrapping_add(1442695040888963407);
    Field::from_u128(*seed >> 8)
}

/// A state path whose every link holds, with sampled values.
fn sample_global_state_path(seed: &mut u128) -> StatePath {
    let mut p = valid_path();
    let transaction_id = sample_field(seed);
    let transition_id = sample_field(seed);
    let transactions_root = sample_field(seed);
    let global_state_root = sample_field(seed);
    p.transaction_id = transaction_id;
    p.transaction_path = path_to(transaction_id);
    p.transaction_leaf.id = transition_id;
    p.transition_path = path_to(transition_id);
    p.header_leaf.id = transactions_root;
    p.transactions_path = path_to(transactions_root);
    p.global_state_root = global_state_root;
    p.block_path = path_to(global_state_root);
    p
}

/// A state path whose transition and transaction links hold, and nothing above.
fn sample_local_state_path(seed: &mut u128) -> StatePath {
    let mut p = sample_global_state_path(seed);
    p.block_path = path_to(sample_field(seed));
    p.header_path = path_to(sample_field(seed));
    p
}

const ITERATIONS: usize = 20;

fn check_verify_global(is_global: bool) {
    let mut seed = 7u128;
    for _ in 0..ITERATIONS {
        let state_path = sample_global_state_path(&mut seed);
        let local_state_root = sample_field(&mut seed);
        // the path is valid for the global root
        assert!(state_path.verify::<ToyAleo>(true, &local_state_root));
        let is_valid = state_path.verify::<ToyAleo>(is_global, &local_state_root);
        match is_global {
            true => assert!(is_valid),
            false => assert!(!is_valid),
        }
    }
}

fn check_verify_local(is_global: bool, is_valid_local_root: bool) {
    let mut seed = 11u128;
    for _ in 0..ITERATIONS {
        let state_path = sample_local_state_path(&mut seed);
        let local_state_root = state_path.transaction_id;
        // the path is valid for the local root
        assert!(state_path.verify::<ToyAleo>(false, &local_state_root));
        let root = if is_valid_local_root { local_state_root } else { sample_field(&mut seed) };
        let is_valid = state_path.verify::<ToyAleo>(is_global, &root);
        match (is_global, is_valid_local_root) {
            (false, true) => assert!(is_valid),
            _ => assert!(!is_valid),
        }
    }
}

// The modes of the inputs (constant, public, private) shape the circuit, not
// the decision; each of the following runs the decision for one mode.

#[test]
fn test_state_path_verify_global_constant() {
    check_verify_global(true);
    check_verify_global(false);
}

#[test]
fn test_state_path_verify_global_public() {
    check_verify_global(true);
    check_verify_global(false);
}

#[test]
fn test_state_path_verify_global_private() {
    check_verify_global(true);
    check_verify_global(false);
}

#[test]
fn test_state_path_verify_local_constant() {
    check_verify_local(false, true);
    check_verify_local(false, false);
    check_verify_local(true, true);
    check_verify_local(true, false);
}

#[test]
fn test_state_path_verify_local_public() {
    check_verify_local(false, true);
    check_verify_local(false, false);
    check_verify_local(true, true);
    check_verify_local(true, false);
}

#[test]
fn test_state_path_verify_local_private() {
    check_verify_local(false, true);
    check_verify_local(false, false);
    check_verify_local(true, true);
    check_verify_local(true, false);
}
