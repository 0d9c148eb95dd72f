use lib::aleo::Aleo;
use lib::field::{Field, MODULUS_HI, MODULUS_LO};
use lib::record::{Ciphertext, Entry, Owner, Plaintext, Record, ViewKey};
use lib::state_path::MerklePath;
use lib::value::{Address, Group, Identifier, Scalar};
use vstd::seq::Seq;

/// An environment whose primitives are simple arithmetic.
struct ToyAleo;

impl Aleo for ToyAleo {
    fn spec_encryption_domain() -> Field {
        unreachable!()
    }

    fn spec_hash_many_psd8(_input: Seq<Field>, _num_outputs: u16) -> Seq<Field> {
        unreachable!()
    }

    fn spec_scalar_multiply(_point: Group, _scalar: Scalar) -> Group {
        unreachable!()
    }

    fn spec_verify_merkle_path_bhp(_path: MerklePath, _root: Field, _leaf: Seq<bool>) -> bool {
        unreachable!()
    }

    fn spec_hash_bhp1024(_input: Seq<bool>) -> Field {
        unreachable!()
    }

    fn encryption_domain() -> Field {
        Field::from_u128(5)
    }

    fn hash_many_psd8(input: &[Field], num_outputs: u16) -> Vec<Field> {
        let base = input.iter().map(|f| f.lo()).fold(0u128, |a, b| a.wrapping_add(b)) % 1000;
        (0..num_outputs as u128).map(|i| Field::from_u128(base + 100 * (i + 1))).collect()
    }

    fn scalar_multiply(point: &Group, scalar: &Scalar) -> Group {
        Group { x: Field::from_u128(point.x.lo() + scalar.lo), y: point.y }
    }

    fn verify_merkle_path_bhp(_path: &MerklePath, _root: &Field, _leaf: &[bool]) -> bool {
        true
    }

    fn hash_bhp1024(_input: &[bool]) -> Field {
        Field::zero()
    }
}

fn f(x: u128) -> Field {
    Field::from_u128(x)
}

fn id(x: u128) -> Identifier {
    Identifier { field: f(x), size: 8 }
}

/// `m + r` in the field.
fn encrypt(m: Field, r: Field) -> Field {
    m.sub(&Field::zero().sub(&r))
}

fn nonce() -> Group {
    Group { x: f(40), y: f(41) }
}

#[test]
fn test_decrypt_with_randomizers_private_owner() {
    let randomizers = [f(10), f(20), f(30), f(40)];
    let record = Record::<Ciphertext> {
        owner: Owner::Private(Ciphertext { fields: vec![encrypt(f(1), f(10))] }),
        data: vec![
            (id(0x61), Entry::Private(Ciphertext { fields: vec![encrypt(f(2), f(20)), encrypt(f(3), f(30))] })),
            (id(0x62), Entry::Public(Plaintext { fields: vec![f(99)] })),
            (id(0x63), Entry::Constant(Plaintext { fields: vec![f(98), f(97)] })),
            (id(0x64), Entry::Private(Ciphertext { fields: vec![encrypt(f(4), f(40))] })),
        ],
        nonce: nonce(),
    };
    assert_eq!(record.num_randomizers(), 4);
    let p = record.decrypt_with_randomizers(&randomizers);
    assert!(matches!(&p.owner, Owner::Private(x) if x.fields == vec![f(1)]));
    assert_eq!(p.data.len(), 4);
    assert!(matches!(&p.data[0], (i, Entry::Private(x)) if *i == id(0x61) && x.fields == vec![f(2), f(3)]));
    assert!(matches!(&p.data[1], (i, Entry::Public(x)) if *i == id(0x62) && x.fields == vec![f(99)]));
    assert!(matches!(&p.data[2], (i, Entry::Constant(x)) if *i == id(0x63) && x.fields == vec![f(98), f(97)]));
    assert!(matches!(&p.data[3], (i, Entry::Private(x)) if *i == id(0x64) && x.fields == vec![f(4)]));
    assert_eq!(p.nonce, nonce());
}

#[test]
fn test_decrypt_with_randomizers_public_owner() {
    let owner = Address { point: Group { x: f(3), y: f(4) } };
    let record = Record::<Ciphertext> {
        owner: Owner::Public(owner),
        data: vec![(id(0x61), Entry::Private(Ciphertext { fields: vec![encrypt(f(8), f(10))] }))],
        nonce: nonce(),
    };
    assert_eq!(record.num_randomizers(), 1);
    let p = record.decrypt_with_randomizers(&[f(10)]);
    assert!(matches!(&p.owner, Owner::Public(a) if *a == owner));
    assert!(matches!(&p.data[0], (_, Entry::Private(x)) if x.fields == vec![f(8)]));
}

#[test]
fn test_decrypt_wraps_around_the_modulus() {
    // the ciphertext is below the randomizer: the difference wraps to p - 1
    let c = f(4);
    let r = f(5);
    let record = Record::<Ciphertext> {
        owner: Owner::Public(Address { point: Group { x: f(0), y: f(1) } }),
        data: vec![(id(1), Entry::Private(Ciphertext { fields: vec![c] }))],
        nonce: nonce(),
    };
    let p = record.decrypt_with_randomizers(&[r]);
    let expected = Field::from_limbs(MODULUS_LO - 1, MODULUS_HI).unwrap();
    assert!(matches!(&p.data[0], (_, Entry::Private(x)) if x.fields == vec![expected]));
}

#[test]
fn test_decrypt_symmetric_and_decrypt() {
    // with the toy primitives the record view key is nonce.x + scalar, and the
    // randomizers are (5 + key) % 1000 + 100, + 200, ...
    let view_key = ViewKey { scalar: Scalar { lo: 2, hi: 0 } };
    let key = f(42);
    let base = (5 + 42) % 1000;
    let record = Record::<Ciphertext> {
        owner: Owner::Private(Ciphertext { fields: vec![encrypt(f(11), f(base + 100))] }),
        data: vec![(id(7), Entry::Private(Ciphertext { fields: vec![encrypt(f(12), f(base + 200))] }))],
        nonce: nonce(),
    };
    for p in [record.decrypt_symmetric::<ToyAleo>(key), record.decrypt::<ToyAleo>(&view_key)] {
        assert!(matches!(&p.owner, Owner::Private(x) if x.fields == vec![f(11)]));
        assert!(matches!(&p.data[0], (i, Entry::Private(x)) if *i == id(7) && x.fields == vec![f(12)]));
        assert_eq!(p.nonce, nonce());
    }
}

#[test]
fn test_field_sub() {
    assert_eq!(f(10).sub(&f(3)), f(7));
    assert_eq!(f(3).sub(&f(3)), Field::zero());
    let p_minus_7 = Field::from_limbs(MODULUS_LO - 7, MODULUS_HI).unwrap();
    assert_eq!(f(3).sub(&f(10)), p_minus_7);
    assert!(Field::from_limbs(MODULUS_LO, MODULUS_HI).is_none());
    assert!(Field::from_limbs(0, MODULUS_HI + 1).is_none());
    let p_minus_1 = Field::from_limbs(MODULUS_LO - 1, MODULUS_HI).unwrap();
    p_minus_1.below_modulus();
    let big = Field::from_limbs(5, 1).unwrap();
    assert_eq!(big.sub(&f(6)), Field::from_limbs(u128::MAX, 0).unwrap());
}

const ITERATIONS: u64 = 100;

/// Encrypts a record with the randomizers that the toy environment derives from
/// the view key and the nonce: the owner with the first when private, then each
/// private entry with the next ones.
fn encrypt_record(record: &Record<Plaintext>, view_key: &ViewKey) -> Record<Ciphertext> {
    let key = ToyAleo::scalar_multiply(&record.nonce, &view_key.scalar).x;
    let count = (if matches!(record.owner, Owner::Private(_)) { 1 } else { 0 })
        + record
            .data
            .iter()
            .map(|(_, e)| match e {
                Entry::Private(p) => p.fields.len(),
                _ => 0,
            })
            .sum::<usize>();
    let randomizers = ToyAleo::hash_many_psd8(&[ToyAleo::encryption_domain(), key], count as u16);
    let mut index = 0;
    let owner = match &record.owner {
        Owner::Public(a) => Owner::Public(*a),
        Owner::Private(p) => {
            index = 1;
            Owner::Private(Ciphertext { fields: vec![encrypt(p.fields[0], randomizers[0])] })
        },
    };
    let mut data = Vec::new();
    for (i, e) in &record.data {
        let entry = match e {
            Entry::Constant(p) => Entry::Constant(Plaintext { fields: p.fields.clone() }),
            Entry::Public(p) => Entry::Public(Plaintext { fields: p.fields.clone() }),
            Entry::Private(p) => {
                let fields = p.fields.iter().map(|m| {
                    let c = encrypt(*m, randomizers[index]);
                    index += 1;
                    c
                });
                Entry::Private(Ciphertext { fields: fields.collect() })
            },
        };
        data.push((*i, entry));
    }
    Record { owner, data, nonce: record.nonce }
}

fn same_record(a: &Record<Plaintext>, b: &Record<Plaintext>) -> bool {
    let owners = match (&a.owner, &b.owner) {
        (Owner::Public(x), Owner::Public(y)) => x == y,
        (Owner::Private(x), Owner::Private(y)) => x.fields == y.fields,
        _ => false,
    };
    let entries = a.data.len() == b.data.len()
        && a.data.iter().zip(b.data.iter()).all(|((i, x), (j, y))| {
            i == j
                && match (x, y) {
                    (Entry::Constant(p), Entry::Constant(q)) => p.fields == q.fields,
                    (Entry::Public(p), Entry::Public(q)) => p.fields == q.fields,
                    (Entry::Private(p), Entry::Private(q)) => p.fields == q.fields,
                    _ => false,
                }
        });
    owners && entries && a.nonce == b.nonce
}

fn check_encrypt_and_decrypt(view_key: &ViewKey, owner: Owner<Plaintext>, seed: &mut u128) {
    let mut next = || {
        *seed = seed.wrapping_mul(6364136223846793005).wrapping_add(1442695040888963407);
        Field::from_u128(*seed >> 4)
    };
    let record = Record::<Plaintext> {
        owner,
        data: vec![
            (id(0x61), Entry::Private(Plaintext { fields: vec![next()] })),
            (id(0x62), Entry::Private(Plaintext { fields: vec![next(), next()] })),
        ],
        nonce: Group { x: next(), y: next() },
    };
    let ciphertext = encrypt_record(&record, view_key);
    let decrypted = ciphertext.decrypt::<ToyAleo>(view_key);
    assert!(same_record(&record, &decrypted));
}

#[test]
fn test_encrypt_and_decrypt() {
    let mut seed = 1u128;
    for i in 0..ITERATIONS {
        let view_key = ViewKey { scalar: Scalar { lo: 1000 + i as u128, hi: 0 } };
        let address = Address { point: Group { x: f(17 + i as u128), y: f(19) } };
        // Public owner.
        check_encrypt_and_decrypt(&view_key, Owner::Public(address), &mut seed);
        // Private owner.
        check_encrypt_and_decrypt(&view_key, Owner::Private(Plaintext { fields: vec![address.point.x] }), &mut seed);
    }
}
