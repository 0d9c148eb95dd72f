use lib::field::{Field, MODULUS_HI, MODULUS_LO};
use lib::transaction::{Deployment, Execution, Fee, Network, PartKind, ProgramOwner, Transaction, TransactionError};
use vstd::seq::Seq;

/// A network whose parts are encoded as a length byte and as many bytes after
/// it, which gives a transaction the sum of its parts' bytes (plus a tag) as
/// id, and refuses empty deployments and executions.
struct TestNetwork;

fn digest(parts: &[&[u8]], tag: u128) -> Field {
    let sum: u128 = parts.iter().flat_map(|p| p.iter()).map(|b| *b as u128).sum();
    Field::from_u128((sum << 16) | tag)
}

impl Network for TestNetwork {
    fn spec_deployment_id(_owner: Seq<u8>, _deployment: Seq<u8>, _fee: Seq<u8>) -> Result<Field, String> {
        unreachable!()
    }

    fn spec_execution_id(_execution: Seq<u8>, _fee: Option<Seq<u8>>) -> Result<Field, String> {
        unreachable!()
    }

    fn spec_part_len(_kind: PartKind, _s: Seq<u8>) -> Option<usize> {
        unreachable!()
    }

    fn part_len(_kind: PartKind, s: &[u8], pos: usize) -> Option<usize> {
        if pos < s.len() {
            Some(1 + s[pos] as usize)
        } else {
            None
        }
    }

    fn deployment_id(owner: &ProgramOwner, deployment: &Deployment, fee: &Fee) -> Result<Field, String> {
        if deployment.bytes.len() <= 1 {
            Err("empty deployment".to_string())
        } else {
            Ok(digest(&[&owner.bytes, &deployment.bytes, &fee.bytes], 0x1234))
        }
    }

    fn execution_id(execution: &Execution, fee: &Option<Fee>) -> Result<Field, String> {
        if execution.bytes.len() <= 1 {
            Err("empty execution".to_string())
        } else {
            let fee_bytes: &[u8] = match fee {
                Some(f) => &f.bytes,
                None => &[],
            };
            Ok(digest(&[&execution.bytes, fee_bytes], 0x5678))
        }
    }
}

fn sample_deployment_transaction() -> Transaction {
    Transaction::from_deployment::<TestNetwork>(
        ProgramOwner { bytes: vec![4, 1, 2, 3, 4] },
        Deployment { bytes: [&[19u8][..], b"program hello.aleo;"].concat() },
        Fee { bytes: [vec![12u8], vec![9; 12]].concat() },
    )
    .unwrap()
}

fn sample_execution_transaction_with_fee() -> Transaction {
    Transaction::from_execution::<TestNetwork>(
        Execution { bytes: vec![5, 7, 7, 7, 0, 255] },
        Some(Fee { bytes: vec![5, 3, 1, 4, 1, 5] }),
    )
    .unwrap()
}

fn sample_execution_transaction_without_fee() -> Transaction {
    Transaction::from_execution::<TestNetwork>(Execution { bytes: vec![1, 42] }, None).unwrap()
}

#[test]
fn test_bytes() {
    for expected in [sample_deployment_transaction(), sample_execution_transaction_with_fee()].into_iter() {
        // Check the byte representation.
        let expected_bytes = expected.to_bytes_le();
        assert_eq!(expected, Transaction::read_le::<TestNetwork>(&expected_bytes[..]).unwrap().0);
        assert!(Transaction::read_le::<TestNetwork>(&expected_bytes[1..]).is_err());
    }
}

#[test]
fn test_bytes_layout() {
    let t = sample_execution_transaction_without_fee();
    let bytes = t.to_bytes_le();
    let id = t.id();
    let mut expected = vec![0u8, 1u8];
    expected.extend_from_slice(&id.lo().to_le_bytes());
    expected.extend_from_slice(&id.hi().to_le_bytes());
    expected.extend_from_slice(&[1, 42]);
    expected.push(0);
    assert_eq!(bytes, expected);
    assert_eq!(Transaction::read_le::<TestNetwork>(&bytes).unwrap(), (t, 37));
}

#[test]
fn test_read_takes_only_the_transaction() {
    let t = sample_deployment_transaction();
    let mut bytes = t.to_bytes_le();
    let n = bytes.len();
    bytes.extend_from_slice(&[5, 6, 7]);
    assert_eq!(Transaction::read_le::<TestNetwork>(&bytes).unwrap(), (t, n));
}

#[test]
fn test_write_le_appends() {
    let t = sample_execution_transaction_with_fee();
    let mut out = vec![0xaa, 0xbb];
    t.write_le(&mut out);
    assert_eq!(&out[..2], &[0xaa, 0xbb]);
    assert_eq!(&out[2..], &t.to_bytes_le()[..]);
}

#[test]
fn test_read_errors() {
    let reader = |b: &[u8]| Transaction::read_le::<TestNetwork>(b).map(|(t, _)| t);
    assert_eq!(reader(&[]), Err(TransactionError::UnexpectedEnd));
    assert_eq!(reader(&[1, 0]), Err(TransactionError::InvalidVersion));
    assert_eq!(reader(&[0]), Err(TransactionError::UnexpectedEnd));
    assert_eq!(reader(&[0, 2]), Err(TransactionError::InvalidVariant));

    let bytes = sample_deployment_transaction().to_bytes_le();
    // the parts follow the id back to back
    assert_eq!(bytes.len(), 2 + 32 + 5 + 20 + 13);
    assert_eq!(&bytes[34..39], &[4, 1, 2, 3, 4]);
    assert_eq!(reader(&bytes[..bytes.len() - 1]), Err(TransactionError::UnexpectedEnd));
    assert_eq!(reader(&bytes[..34]), Err(TransactionError::InvalidPart));
    assert_eq!(reader(&bytes[..20]), Err(TransactionError::UnexpectedEnd));
    // the id, one higher than it should be
    let mut wrong_id = bytes.clone();
    wrong_id[2] = wrong_id[2].wrapping_add(1);
    assert_eq!(reader(&wrong_id), Err(TransactionError::IdMismatch));
    // an id at or above the modulus
    let mut big_id = bytes.clone();
    big_id[2..18].copy_from_slice(&MODULUS_LO.to_le_bytes());
    big_id[18..34].copy_from_slice(&MODULUS_HI.to_le_bytes());
    assert_eq!(reader(&big_id), Err(TransactionError::InvalidField));

    let exec = sample_execution_transaction_with_fee().to_bytes_le();
    // the fee variant byte follows the id (32) and the 6 bytes of the execution
    let mut bad_fee = exec.clone();
    bad_fee[2 + 32 + 6] = 2;
    assert_eq!(reader(&bad_fee), Err(TransactionError::InvalidFeeVariant));
}

#[test]
fn test_refused_transactions() {
    assert_eq!(
        Transaction::from_deployment::<TestNetwork>(
            ProgramOwner { bytes: vec![1] },
            Deployment { bytes: vec![0] },
            Fee { bytes: vec![0] },
        ),
        Err(TransactionError::InvalidTransaction("empty deployment".to_string()))
    );
    assert_eq!(
        Transaction::from_execution::<TestNetwork>(Execution { bytes: vec![0] }, None),
        Err(TransactionError::InvalidTransaction("empty execution".to_string()))
    );
    // bytes that describe an empty execution are refused when read
    let mut bytes = vec![0u8, 1u8];
    bytes.extend_from_slice(&0x5678u128.to_le_bytes());
    bytes.extend_from_slice(&0u128.to_le_bytes());
    bytes.push(0);
    bytes.push(0);
    assert_eq!(
        Transaction::read_le::<TestNetwork>(&bytes).map(|(t, _)| t),
        Err(TransactionError::InvalidTransaction("empty execution".to_string()))
    );
}

#[test]
fn test_transaction_id() {
    let t = sample_execution_transaction_without_fee();
    assert_eq!(t.id(), Field::from_u128(((1u128 + 42) << 16) | 0x5678));
}
