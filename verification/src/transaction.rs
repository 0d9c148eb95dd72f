//! Transactions and their byte encoding.
use vstd::prelude::*;
use crate::bytes::{le_u128, lemma_bytes_of_le_u128, lemma_le_u128_of_bytes, read_u128, u128_le_bytes};
use crate::field::{Field, field_bytes, limbs_value, modulus};

verus! {

/// The owner of a deployed program, as its own encoding.
#[derive(Clone, Debug, PartialEq, Eq)]
pub struct ProgramOwner {
    pub bytes: Vec<u8>,
}

/// A program deployment, as its own encoding.
#[derive(Clone, Debug, PartialEq, Eq)]
pub struct Deployment {
    pub bytes: Vec<u8>,
}

/// An execution of program functions, as its own encoding.
#[derive(Clone, Debug, PartialEq, Eq)]
pub struct Execution {
    pub bytes: Vec<u8>,
}

/// The fee of a transaction, as its own encoding.
#[derive(Clone, Debug, PartialEq, Eq)]
pub struct Fee {
    pub bytes: Vec<u8>,
}

impl View for ProgramOwner {
    type V = Seq<u8>;

    open spec fn view(&self) -> Seq<u8> {
        self.bytes@
    }
}

impl View for Deployment {
    type V = Seq<u8>;

    open spec fn view(&self) -> Seq<u8> {
        self.bytes@
    }
}

impl View for Execution {
    type V = Seq<u8>;

    open spec fn view(&self) -> Seq<u8> {
        self.bytes@
    }
}

impl View for Fee {
    type V = Seq<u8>;

    open spec fn view(&self) -> Seq<u8> {
        self.bytes@
    }
}

/// A transaction: a deployment with its owner and fee, or an execution with an
/// optional fee; each with its id.
#[derive(Clone, Debug, PartialEq, Eq)]
pub enum Transaction {
    Deploy(Field, ProgramOwner, Deployment, Fee),
    Execute(Field, Execution, Option<Fee>),
}

/// A transaction, its parts taken by their encodings.
pub enum TransactionView {
    Deploy(Field, Seq<u8>, Seq<u8>, Seq<u8>),
    Execute(Field, Seq<u8>, Option<Seq<u8>>),
}

/// The encoding of an optional fee.
pub open spec fn fee_view(fee: Option<Fee>) -> Option<Seq<u8>> {
    match fee {
        None => None,
        Some(f) => Some(f@),
    }
}

impl View for Transaction {
    type V = TransactionView;

    open spec fn view(&self) -> TransactionView {
        match self {
            Transaction::Deploy(id, o, d, f) => TransactionView::Deploy(*id, o@, d@, f@),
            Transaction::Execute(id, e, f) => TransactionView::Execute(*id, e@, fee_view(*f)),
        }
    }
}

/// Why bytes do not hold a transaction.
#[derive(Clone, Debug, PartialEq, Eq)]
pub enum TransactionError {
    /// The bytes end before the transaction does.
    UnexpectedEnd,
    /// The version byte is not 0.
    InvalidVersion,
    /// The variant byte is neither 0 (deploy) nor 1 (execute).
    InvalidVariant,
    /// The fee variant byte is neither 0 (no fee) nor 1 (a fee).
    InvalidFeeVariant,
    /// The id is not a canonical field element.
    InvalidField,
    /// The network finds no part of the expected kind at this position.
    InvalidPart,
    /// The network refuses to build a transaction of these parts, for this reason.
    InvalidTransaction(String),
    /// The id in the bytes is not the id of the transaction they describe.
    IdMismatch,
}

/// The kinds of parts of a transaction.
#[derive(Clone, Copy, Debug, PartialEq, Eq, Structural)]
pub enum PartKind {
    Owner,
    Deployment,
    Execution,
    Fee,
}

/// A network: it reads the parts of transactions, decides which parts make a
/// transaction, and gives the id of the transaction they make.
pub trait Network {
    /// The number of bytes that the encoding of a part of this kind takes at
    /// the start of `s`, or `None` where `s` does not start with one.
    spec fn spec_part_len(kind: PartKind, s: Seq<u8>) -> Option<usize>;

    /// The id of the deployment transaction of these parts, or the reason why
    /// the network refuses them.
    spec fn spec_deployment_id(owner: Seq<u8>, deployment: Seq<u8>, fee: Seq<u8>) -> Result<Field, String>;

    /// The id of the execution transaction of these parts, or the reason why the
    /// network refuses them.
    spec fn spec_execution_id(execution: Seq<u8>, fee: Option<Seq<u8>>) -> Result<Field, String>;

    /// Returns the number of bytes that the encoding of a part of this kind takes
    /// in `s` from `pos` on.
    fn part_len(kind: PartKind, s: &[u8], pos: usize) -> (r: Option<usize>)
        requires
            pos <= s@.len(),
        ensures
            r == Self::spec_part_len(kind, s@.skip(pos as int)),
    ;

    /// Returns the id of the deployment transaction of these parts.
    fn deployment_id(owner: &ProgramOwner, deployment: &Deployment, fee: &Fee) -> (r: Result<Field, String>)
        ensures
            r == Self::spec_deployment_id(owner@, deployment@, fee@),
    ;

    /// Returns the id of the execution transaction of these parts.
    fn execution_id(execution: &Execution, fee: &Option<Fee>) -> (r: Result<Field, String>)
        ensures
            r == Self::spec_execution_id(execution@, fee_view(*fee)),
    ;
}

/// The id of a transaction.
pub open spec fn view_id(t: TransactionView) -> Field {
    match t {
        TransactionView::Deploy(id, ..) => id,
        TransactionView::Execute(id, ..) => id,
    }
}

/// The transaction is the one that the network builds from its parts.
pub open spec fn built_by<N: Network>(t: TransactionView) -> bool {
    match t {
        TransactionView::Deploy(id, o, d, f) => N::spec_deployment_id(o, d, f) == Ok::<Field, String>(id),
        TransactionView::Execute(id, e, f) => N::spec_execution_id(e, f) == Ok::<Field, String>(id),
    }
}

/// The encoding of an optional fee: a byte that says whether there is one, then
/// the fee.
pub open spec fn fee_bytes(fee: Option<Seq<u8>>) -> Seq<u8> {
    match fee {
        None => seq![0u8],
        Some(f) => seq![1u8] + f,
    }
}

/// The encoding of a transaction: version 0, the variant, the id, then the
/// parts' own encodings back to back (an execution's fee behind a byte that
/// says whether there is one).
pub open spec fn spec_write(t: TransactionView) -> Seq<u8> {
    match t {
        TransactionView::Deploy(id, o, d, f) => seq![0u8, 0u8] + field_bytes(id) + o + d + f,
        TransactionView::Execute(id, e, fee) => seq![0u8, 1u8] + field_bytes(id) + e + fee_bytes(fee),
    }
}

/// The byte at `pos`, and the position after it.
pub open spec fn parse_u8(s: Seq<u8>, pos: int) -> Result<(u8, int), TransactionError> {
    if 0 <= pos < s.len() {
        Ok((s[pos], pos + 1))
    } else {
        Err(TransactionError::UnexpectedEnd)
    }
}

/// The field element whose 32 little-endian bytes start at `pos`.
pub open spec fn parse_field(s: Seq<u8>, pos: int) -> Result<(Field, int), TransactionError> {
    if 0 <= pos && pos + 32 <= s.len() {
        let lo = le_u128(s.subrange(pos, pos + 16));
        let hi = le_u128(s.subrange(pos + 16, pos + 32));
        if limbs_value(lo, hi) < modulus() {
            Ok((Field::spec_from_limbs(lo, hi), pos + 32))
        } else {
            Err(TransactionError::InvalidField)
        }
    } else {
        Err(TransactionError::UnexpectedEnd)
    }
}

/// The part of the given kind at `pos`, as the network reads it, and the
/// position after it.
pub open spec fn parse_part<N: Network>(kind: PartKind, s: Seq<u8>, pos: int) -> Result<(Seq<u8>, int), TransactionError> {
    if 0 <= pos <= s.len() {
        match N::spec_part_len(kind, s.skip(pos)) {
            None => Err(TransactionError::InvalidPart),
            Some(n) => if pos + n <= s.len() {
                Ok((s.subrange(pos, pos + n), pos + n))
            } else {
                Err(TransactionError::UnexpectedEnd)
            },
        }
    } else {
        Err(TransactionError::UnexpectedEnd)
    }
}

/// A deployment's id and parts from `pos` on.
#[verifier::opaque]
pub open spec fn spec_read_deploy<N: Network>(s: Seq<u8>, pos: int) -> Result<(TransactionView, int), TransactionError> {
    match parse_field(s, pos) {
        Err(e) => Err(e),
        Ok((id, p1)) => match parse_part::<N>(PartKind::Owner, s, p1) {
            Err(e) => Err(e),
            Ok((owner, p2)) => match parse_part::<N>(PartKind::Deployment, s, p2) {
                Err(e) => Err(e),
                Ok((deployment, p3)) => match parse_part::<N>(PartKind::Fee, s, p3) {
                    Err(e) => Err(e),
                    Ok((fee, p4)) => match N::spec_deployment_id(owner, deployment, fee) {
                        Err(reason) => Err(TransactionError::InvalidTransaction(reason)),
                        Ok(tid) => if tid == id {
                            Ok((TransactionView::Deploy(tid, owner, deployment, fee), p4))
                        } else {
                            Err(TransactionError::IdMismatch)
                        },
                    },
                },
            },
        },
    }
}

/// The optional fee of an execution from `pos` on.
pub open spec fn parse_fee<N: Network>(s: Seq<u8>, pos: int) -> Result<(Option<Seq<u8>>, int), TransactionError> {
    match parse_u8(s, pos) {
        Err(e) => Err(e),
        Ok((v, p)) => if v == 0 {
            Ok((None, p))
        } else if v == 1 {
            match parse_part::<N>(PartKind::Fee, s, p) {
                Err(e) => Err(e),
                Ok((f, q)) => Ok((Some(f), q)),
            }
        } else {
            Err(TransactionError::InvalidFeeVariant)
        },
    }
}

/// An execution's id and parts from `pos` on.
#[verifier::opaque]
pub open spec fn spec_read_execute<N: Network>(s: Seq<u8>, pos: int) -> Result<(TransactionView, int), TransactionError> {
    match parse_field(s, pos) {
        Err(e) => Err(e),
        Ok((id, p1)) => match parse_part::<N>(PartKind::Execution, s, p1) {
            Err(e) => Err(e),
            Ok((execution, p2)) => match parse_fee::<N>(s, p2) {
                Err(e) => Err(e),
                Ok((fee, p3)) => match N::spec_execution_id(execution, fee) {
                    Err(reason) => Err(TransactionError::InvalidTransaction(reason)),
                    Ok(tid) => if tid == id {
                        Ok((TransactionView::Execute(tid, execution, fee), p3))
                    } else {
                        Err(TransactionError::IdMismatch)
                    },
                },
            },
        },
    }
}

/// The transaction at the start of `s`, and the number of bytes it takes.
pub open spec fn spec_read<N: Network>(s: Seq<u8>) -> Result<(TransactionView, int), TransactionError> {
    match parse_u8(s, 0) {
        Err(e) => Err(e),
        Ok((version, p1)) => if version != 0 {
            Err(TransactionError::InvalidVersion)
        } else {
            match parse_u8(s, p1) {
                Err(e) => Err(e),
                Ok((variant, p2)) => if variant == 0 {
                    spec_read_deploy::<N>(s, p2)
                } else if variant == 1 {
                    spec_read_execute::<N>(s, p2)
                } else {
                    Err(TransactionError::InvalidVariant)
                },
            }
        },
    }
}

/// `x` stands in `s` from `pos` on.
pub open spec fn at(s: Seq<u8>, pos: int, x: Seq<u8>) -> bool {
    0 <= pos && pos + x.len() <= s.len() && s.subrange(pos, pos + x.len()) == x
}

proof fn lemma_at_split(s: Seq<u8>, pos: int, a: Seq<u8>, b: Seq<u8>)
    requires
        at(s, pos, a + b),
    ensures
        at(s, pos, a),
        at(s, pos + a.len(), b),
{
    assert forall|i: int| 0 <= i < a.len() implies s.subrange(pos, pos + a.len())[i] == a[i] by {
        assert(s.subrange(pos, pos + (a + b).len())[i] == (a + b)[i]);
    }
    assert(s.subrange(pos, pos + a.len()) =~= a);
    assert forall|i: int| 0 <= i < b.len() implies s.subrange(pos + a.len(), pos + a.len() + b.len())[i]
        == b[i] by {
        assert(s.subrange(pos, pos + (a + b).len())[a.len() + i] == (a + b)[a.len() + i]);
    }
    assert(s.subrange(pos + a.len(), pos + a.len() + b.len()) =~= b);
}

proof fn lemma_at_join(s: Seq<u8>, pos: int, a: Seq<u8>, b: Seq<u8>)
    requires
        at(s, pos, a),
        at(s, pos + a.len(), b),
    ensures
        at(s, pos, a + b),
{
    assert forall|i: int| 0 <= i < (a + b).len() implies s.subrange(pos, pos + (a + b).len())[i] == (a
        + b)[i] by {
        if i < a.len() {
            assert(s.subrange(pos, pos + a.len())[i] == a[i]);
        } else {
            assert(s.subrange(pos + a.len(), pos + a.len() + b.len())[i - a.len()] == b[i - a.len()]);
        }
    }
    assert(s.subrange(pos, pos + (a + b).len()) =~= a + b);
}

proof fn lemma_parse_field_written(s: Seq<u8>, pos: int, f: Field)
    requires
        at(s, pos, field_bytes(f)),
        f@ < modulus(),
    ensures
        parse_field(s, pos) == Ok::<(Field, int), TransactionError>((f, pos + 32)),
{
    lemma_at_split(s, pos, u128_le_bytes(f.spec_lo()), u128_le_bytes(f.spec_hi()));
    lemma_le_u128_of_bytes(f.spec_lo());
    lemma_le_u128_of_bytes(f.spec_hi());
    Field::lemma_limbs_determine(f);
    Field::lemma_view_is_limbs(f);
}

proof fn lemma_parse_field_reads(s: Seq<u8>, pos: int)
    ensures
        parse_field(s, pos) matches Ok((f, p)) ==> {
            &&& p == pos + 32
            &&& at(s, pos, field_bytes(f))
            &&& f@ < modulus()
        },
{
    if let Ok((f, p)) = parse_field(s, pos) {
        let lo = le_u128(s.subrange(pos, pos + 16));
        let hi = le_u128(s.subrange(pos + 16, pos + 32));
        Field::lemma_from_limbs(lo, hi);
        lemma_bytes_of_le_u128(s.subrange(pos, pos + 16));
        lemma_bytes_of_le_u128(s.subrange(pos + 16, pos + 32));
        lemma_at_join(s, pos, u128_le_bytes(lo), u128_le_bytes(hi));
    }
}

/// A part of this kind is read back whole, whatever follows it: the network's
/// reader takes exactly its encoding.
pub open spec fn self_delimiting<N: Network>(kind: PartKind, p: Seq<u8>) -> bool {
    &&& p.len() <= usize::MAX
    &&& forall|rest: Seq<u8>| #[trigger] N::spec_part_len(kind, p + rest) == Some(p.len() as usize)
}

proof fn lemma_parse_part_written<N: Network>(kind: PartKind, s: Seq<u8>, pos: int, p: Seq<u8>)
    requires
        self_delimiting::<N>(kind, p),
        at(s, pos, p),
    ensures
        parse_part::<N>(kind, s, pos) == Ok::<(Seq<u8>, int), TransactionError>((p, pos + p.len())),
{
    let rest = s.skip(pos + p.len());
    assert(s.skip(pos) =~= p + rest);
    assert(N::spec_part_len(kind, p + rest) == Some(p.len() as usize));
}

proof fn lemma_parse_part_reads<N: Network>(kind: PartKind, s: Seq<u8>, pos: int)
    ensures
        parse_part::<N>(kind, s, pos) matches Ok((p, q)) ==> q == pos + p.len() && at(s, pos, p),
{
}

/// The id of a transaction lies in `[0, p)`, as every field element does.
pub open spec fn encodable(t: TransactionView) -> bool {
    view_id(t)@ < modulus()
}

/// Each part of the transaction is read back whole by the network.
pub open spec fn parts_self_delimiting<N: Network>(t: TransactionView) -> bool {
    match t {
        TransactionView::Deploy(_, o, d, f) => self_delimiting::<N>(PartKind::Owner, o)
            && self_delimiting::<N>(PartKind::Deployment, d) && self_delimiting::<N>(PartKind::Fee, f),
        TransactionView::Execute(_, e, fee) => self_delimiting::<N>(PartKind::Execution, e) && (
        fee matches Some(f) ==> self_delimiting::<N>(PartKind::Fee, f)),
    }
}

/// The bytes of a transaction after its version and variant bytes.
pub open spec fn body_bytes(t: TransactionView) -> Seq<u8> {
    match t {
        TransactionView::Deploy(id, o, d, f) => field_bytes(id) + o + d + f,
        TransactionView::Execute(id, e, fee) => field_bytes(id) + e + fee_bytes(fee),
    }
}

/// The variant byte of a transaction.
pub open spec fn variant_byte(t: TransactionView) -> u8 {
    match t {
        TransactionView::Deploy(..) => 0,
        TransactionView::Execute(..) => 1,
    }
}

proof fn lemma_write_pieces(t: TransactionView)
    ensures
        spec_write(t) == seq![0u8, variant_byte(t)] + body_bytes(t),
{
    assert(spec_write(t) =~= seq![0u8, variant_byte(t)] + body_bytes(t));
}

proof fn lemma_parse_fee_written<N: Network>(s: Seq<u8>, pos: int, fee: Option<Seq<u8>>)
    requires
        at(s, pos, fee_bytes(fee)),
        fee matches Some(f) ==> self_delimiting::<N>(PartKind::Fee, f),
    ensures
        parse_fee::<N>(s, pos) == Ok::<(Option<Seq<u8>>, int), TransactionError>(
            (fee, pos + fee_bytes(fee).len()),
        ),
{
    assert(s[pos] == s.subrange(pos, pos + fee_bytes(fee).len())[0]);
    if let Some(f) = fee {
        lemma_at_split(s, pos, seq![1u8], f);
        lemma_parse_part_written::<N>(PartKind::Fee, s, pos + 1, f);
    }
}

proof fn lemma_parse_fee_reads<N: Network>(s: Seq<u8>, pos: int)
    ensures
        parse_fee::<N>(s, pos) matches Ok((fee, p)) ==> {
            &&& p == pos + fee_bytes(fee).len()
            &&& at(s, pos, fee_bytes(fee))
        },
{
    if let Ok((fee, p)) = parse_fee::<N>(s, pos) {
        assert(at(s, pos, seq![s[pos]])) by {
            assert(s.subrange(pos, pos + 1) =~= seq![s[pos]]);
        }
        if let Some(f) = fee {
            lemma_parse_part_reads::<N>(PartKind::Fee, s, pos + 1);
            lemma_at_join(s, pos, seq![1u8], f);
        }
    }
}

proof fn lemma_deploy_written<N: Network>(s: Seq<u8>, id: Field, o: Seq<u8>, d: Seq<u8>, f: Seq<u8>)
    requires
        id@ < modulus(),
        self_delimiting::<N>(PartKind::Owner, o),
        self_delimiting::<N>(PartKind::Deployment, d),
        self_delimiting::<N>(PartKind::Fee, f),
        N::spec_deployment_id(o, d, f) == Ok::<Field, String>(id),
        at(s, 2, field_bytes(id) + o + d + f),
    ensures
        spec_read_deploy::<N>(s, 2) == Ok::<(TransactionView, int), TransactionError>(
            (TransactionView::Deploy(id, o, d, f), 34int + o.len() + d.len() + f.len()),
        ),
{
    lemma_at_split(s, 2, field_bytes(id) + o + d, f);
    lemma_at_split(s, 2, field_bytes(id) + o, d);
    lemma_at_split(s, 2, field_bytes(id), o);
    lemma_parse_field_written(s, 2, id);
    lemma_parse_part_written::<N>(PartKind::Owner, s, 34, o);
    lemma_parse_part_written::<N>(PartKind::Deployment, s, 34int + o.len(), d);
    lemma_parse_part_written::<N>(PartKind::Fee, s, 34int + o.len() + d.len(), f);
    reveal(spec_read_deploy);
}

proof fn lemma_execute_written<N: Network>(s: Seq<u8>, id: Field, e: Seq<u8>, fee: Option<Seq<u8>>)
    requires
        id@ < modulus(),
        self_delimiting::<N>(PartKind::Execution, e),
        fee matches Some(f) ==> self_delimiting::<N>(PartKind::Fee, f),
        N::spec_execution_id(e, fee) == Ok::<Field, String>(id),
        at(s, 2, field_bytes(id) + e + fee_bytes(fee)),
    ensures
        spec_read_execute::<N>(s, 2) == Ok::<(TransactionView, int), TransactionError>(
            (TransactionView::Execute(id, e, fee), 34int + e.len() + fee_bytes(fee).len()),
        ),
{
    lemma_at_split(s, 2, field_bytes(id) + e, fee_bytes(fee));
    lemma_at_split(s, 2, field_bytes(id), e);
    lemma_parse_field_written(s, 2, id);
    lemma_parse_part_written::<N>(PartKind::Execution, s, 34, e);
    lemma_parse_fee_written::<N>(s, 34int + e.len(), fee);
    reveal(spec_read_execute);
}

proof fn lemma_deploy_reads<N: Network>(s: Seq<u8>)
    ensures
        spec_read_deploy::<N>(s, 2) matches Ok((t, n)) ==> {
            &&& t is Deploy
            &&& n == 2 + body_bytes(t).len()
            &&& at(s, 2, body_bytes(t))
        },
{
    reveal(spec_read_deploy);
    if let Ok((t, n)) = spec_read_deploy::<N>(s, 2) {
        if let TransactionView::Deploy(id, o, d, f) = t {
            lemma_parse_field_reads(s, 2);
            lemma_parse_part_reads::<N>(PartKind::Owner, s, 34);
            lemma_parse_part_reads::<N>(PartKind::Deployment, s, 34int + o.len());
            lemma_parse_part_reads::<N>(PartKind::Fee, s, 34int + o.len() + d.len());
            lemma_at_join(s, 2, field_bytes(id), o);
            lemma_at_join(s, 2, field_bytes(id) + o, d);
            lemma_at_join(s, 2, field_bytes(id) + o + d, f);
        }
    }
}

proof fn lemma_execute_reads<N: Network>(s: Seq<u8>)
    ensures
        spec_read_execute::<N>(s, 2) matches Ok((t, n)) ==> {
            &&& t is Execute
            &&& n == 2 + body_bytes(t).len()
            &&& at(s, 2, body_bytes(t))
        },
{
    reveal(spec_read_execute);
    if let Ok((t, n)) = spec_read_execute::<N>(s, 2) {
        if let TransactionView::Execute(id, e, fee) = t {
            lemma_parse_field_reads(s, 2);
            lemma_parse_part_reads::<N>(PartKind::Execution, s, 34);
            lemma_parse_fee_reads::<N>(s, 34int + e.len());
            lemma_at_join(s, 2, field_bytes(id), e);
            lemma_at_join(s, 2, field_bytes(id) + e, fee_bytes(fee));
        }
    }
}

/// Reading the encoding of a transaction that the network builds from its parts
/// gives the transaction back, and takes exactly the encoding, whatever follows
/// it, where the network reads each part back whole.
pub proof fn lemma_write_then_read<N: Network>(t: TransactionView, rest: Seq<u8>)
    requires
        encodable(t),
        built_by::<N>(t),
        parts_self_delimiting::<N>(t),
    ensures
        spec_read::<N>(spec_write(t) + rest) == Ok::<(TransactionView, int), TransactionError>(
            (t, spec_write(t).len() as int),
        ),
{
    let w = spec_write(t);
    let s = w + rest;
    lemma_write_pieces(t);
    let h = seq![0u8, variant_byte(t)];
    assert(s.subrange(0, w.len() as int) =~= w);
    lemma_at_split(s, 0, h, body_bytes(t));
    assert(s[0] == w[0] && s[1] == w[1]);
    match t {
        TransactionView::Deploy(id, o, d, f) => {
            lemma_deploy_written::<N>(s, id, o, d, f);
        },
        TransactionView::Execute(id, e, fee) => {
            lemma_execute_written::<N>(s, id, e, fee);
        },
    }
}

/// Where bytes hold a transaction, the bytes that it takes are its encoding.
pub proof fn lemma_read_then_write<N: Network>(s: Seq<u8>)
    ensures
        spec_read::<N>(s) matches Ok((t, n)) ==> 0 <= n <= s.len() && spec_write(t) == s.take(n),
{
    if let Ok((t, n)) = spec_read::<N>(s) {
        lemma_deploy_reads::<N>(s);
        lemma_execute_reads::<N>(s);
        lemma_write_pieces(t);
        let h = seq![s[0], s[1]];
        assert(at(s, 0, h)) by {
            assert(s.subrange(0, 2) =~= h);
        }
        assert(h == seq![0u8, variant_byte(t)]);
        lemma_at_join(s, 0, h, body_bytes(t));
        assert(s.take(n) =~= s.subrange(0, n));
    }
}

/// Without its version byte, the encoding of an execution is refused (its first
/// byte is 1, not the version 0), and so is that of a deployment whose id's
/// lowest byte is neither 0 nor 1 (that byte is read as the variant).
pub proof fn lemma_read_without_version_byte<N: Network>(t: TransactionView)
    ensures
        t is Execute ==> spec_read::<N>(spec_write(t).drop_first()) == Err::<(TransactionView, int), TransactionError>(
            TransactionError::InvalidVersion,
        ),
        t is Deploy && field_bytes(view_id(t))[0] > 1 ==> spec_read::<N>(spec_write(t).drop_first())
            == Err::<(TransactionView, int), TransactionError>(TransactionError::InvalidVariant),
{
    lemma_write_pieces(t);
    let s = spec_write(t).drop_first();
    assert(s[0] == variant_byte(t));
    assert(s[1] == body_bytes(t)[0]);
    assert(body_bytes(t)[0] == field_bytes(view_id(t))[0]);
}

fn read_byte(s: &[u8], pos: usize) -> (r: Result<(u8, usize), TransactionError>)
    ensures
        match parse_u8(s@, pos as int) {
            Ok((v, p)) => r matches Ok((x, q)) && x == v && q == p,
            Err(e) => r == Err::<(u8, usize), TransactionError>(e),
        },
{
    if pos < s.len() {
        Ok((s[pos], pos + 1))
    } else {
        Err(TransactionError::UnexpectedEnd)
    }
}

fn read_field(s: &[u8], pos: usize) -> (r: Result<(Field, usize), TransactionError>)
    ensures
        match parse_field(s@, pos as int) {
            Ok((v, p)) => r matches Ok((x, q)) && x == v && q == p,
            Err(e) => r == Err::<(Field, usize), TransactionError>(e),
        },
{
    if pos > s.len() || s.len() - pos < 32 {
        return Err(TransactionError::UnexpectedEnd);
    }
    let lo = read_u128(s, pos);
    let hi = read_u128(s, pos + 16);
    match Field::from_limbs(lo, hi) {
        Some(f) => Ok((f, pos + 32)),
        None => Err(TransactionError::InvalidField),
    }
}

fn read_part<N: Network>(kind: PartKind, s: &[u8], pos: usize) -> (r: Result<(Vec<u8>, usize), TransactionError>)
    ensures
        match parse_part::<N>(kind, s@, pos as int) {
            Ok((v, p)) => r matches Ok((x, q)) && x@ == v && q == p,
            Err(e) => r matches Err(x) && x == e,
        },
{
    if pos > s.len() {
        return Err(TransactionError::UnexpectedEnd);
    }
    let n = match N::part_len(kind, s, pos) {
        Some(n) => n,
        None => return Err(TransactionError::InvalidPart),
    };
    if n > s.len() - pos {
        return Err(TransactionError::UnexpectedEnd);
    }
    let end = pos + n;
    let mut out: Vec<u8> = Vec::new();
    for i in pos..end
        invariant
            pos <= end <= s@.len(),
            out@ == s@.subrange(pos as int, i as int),
    {
        out.push(s[i]);
        assert(s@.subrange(pos as int, i + 1) =~= s@.subrange(pos as int, i as int).push(s@[i as int]));
    }
    Ok((out, end))
}

fn write_part(b: &Vec<u8>, out: &mut Vec<u8>)
    ensures
        final(out)@ == old(out)@ + b@,
{
    let ghost start = out@;
    for i in 0..b.len()
        invariant
            out@ == start + b@.take(i as int),
    {
        out.push(b[i]);
        assert(b@.take(i + 1) =~= b@.take(i as int).push(b@[i as int]));
    }
    assert(b@.take(b@.len() as int) =~= b@);
}

impl Transaction {
    /// The deployment transaction of these parts, with the id that the network
    /// gives it.
    pub fn from_deployment<N: Network>(owner: ProgramOwner, deployment: Deployment, fee: Fee) -> (r: Result<Transaction, TransactionError>)
        ensures
            match N::spec_deployment_id(owner@, deployment@, fee@) {
                Ok(id) => r matches Ok(t) && t@ == TransactionView::Deploy(id, owner@, deployment@, fee@),
                Err(reason) => r matches Err(e) && e == TransactionError::InvalidTransaction(reason),
            },
    {
        match N::deployment_id(&owner, &deployment, &fee) {
            Ok(id) => Ok(Transaction::Deploy(id, owner, deployment, fee)),
            Err(reason) => Err(TransactionError::InvalidTransaction(reason)),
        }
    }

    /// The execution transaction of these parts, with the id that the network
    /// gives it.
    pub fn from_execution<N: Network>(execution: Execution, fee: Option<Fee>) -> (r: Result<Transaction, TransactionError>)
        ensures
            match N::spec_execution_id(execution@, fee_view(fee)) {
                Ok(id) => r matches Ok(t) && t@ == TransactionView::Execute(id, execution@, fee_view(fee)),
                Err(reason) => r matches Err(e) && e == TransactionError::InvalidTransaction(reason),
            },
    {
        match N::execution_id(&execution, &fee) {
            Ok(id) => Ok(Transaction::Execute(id, execution, fee)),
            Err(reason) => Err(TransactionError::InvalidTransaction(reason)),
        }
    }

    /// Returns the id of the transaction.
    pub fn id(&self) -> (r: Field)
        ensures
            r == view_id(self@),
    {
        match self {
            Transaction::Deploy(id, ..) => *id,
            Transaction::Execute(id, ..) => *id,
        }
    }

    /// Reads a transaction from the start of `s`, and returns it with the number
    /// of bytes it takes.
    pub fn read_le<N: Network>(s: &[u8]) -> (r: Result<(Transaction, usize), TransactionError>)
        ensures
            match spec_read::<N>(s@) {
                Ok((t, n)) => r matches Ok((x, m)) && x@ == t && m == n,
                Err(e) => r matches Err(x) && x == e,
            },
    {
        let (version, p1) = match read_byte(s, 0) {
            Ok(x) => x,
            Err(e) => return Err(e),
        };
        if version != 0 {
            return Err(TransactionError::InvalidVersion);
        }
        let (variant, p2) = match read_byte(s, p1) {
            Ok(x) => x,
            Err(e) => return Err(e),
        };
        if variant == 0 {
            Self::read_deploy::<N>(s, p2)
        } else if variant == 1 {
            Self::read_execute::<N>(s, p2)
        } else {
            Err(TransactionError::InvalidVariant)
        }
    }

    fn read_deploy<N: Network>(s: &[u8], pos: usize) -> (r: Result<(Transaction, usize), TransactionError>)
        ensures
            match spec_read_deploy::<N>(s@, pos as int) {
                Ok((t, n)) => r matches Ok((x, m)) && x@ == t && m == n,
                Err(e) => r matches Err(x) && x == e,
            },
    {
        reveal(spec_read_deploy);
        let (id, p1) = match read_field(s, pos) {
            Ok(x) => x,
            Err(e) => return Err(e),
        };
        let (owner, p2) = match read_part::<N>(PartKind::Owner, s, p1) {
            Ok(x) => x,
            Err(e) => return Err(e),
        };
        let (deployment, p3) = match read_part::<N>(PartKind::Deployment, s, p2) {
            Ok(x) => x,
            Err(e) => return Err(e),
        };
        let (fee, p4) = match read_part::<N>(PartKind::Fee, s, p3) {
            Ok(x) => x,
            Err(e) => return Err(e),
        };
        let transaction = match Self::from_deployment::<N>(
            ProgramOwner { bytes: owner },
            Deployment { bytes: deployment },
            Fee { bytes: fee },
        ) {
            Ok(t) => t,
            Err(e) => return Err(e),
        };
        if transaction.id() == id {
            Ok((transaction, p4))
        } else {
            Err(TransactionError::IdMismatch)
        }
    }

    fn read_execute<N: Network>(s: &[u8], pos: usize) -> (r: Result<(Transaction, usize), TransactionError>)
        ensures
            match spec_read_execute::<N>(s@, pos as int) {
                Ok((t, n)) => r matches Ok((x, m)) && x@ == t && m == n,
                Err(e) => r matches Err(x) && x == e,
            },
    {
        reveal(spec_read_execute);
        let (id, p1) = match read_field(s, pos) {
            Ok(x) => x,
            Err(e) => return Err(e),
        };
        let (execution, p2) = match read_part::<N>(PartKind::Execution, s, p1) {
            Ok(x) => x,
            Err(e) => return Err(e),
        };
        let (fee_variant, p3) = match read_byte(s, p2) {
            Ok(x) => x,
            Err(e) => return Err(e),
        };
        let (fee, p4) = if fee_variant == 0 {
            (None, p3)
        } else if fee_variant == 1 {
            match read_part::<N>(PartKind::Fee, s, p3) {
                Ok((f, q)) => (Some(Fee { bytes: f }), q),
                Err(e) => return Err(e),
            }
        } else {
            return Err(TransactionError::InvalidFeeVariant);
        };
        let transaction = match Self::from_execution::<N>(Execution { bytes: execution }, fee) {
            Ok(t) => t,
            Err(e) => return Err(e),
        };
        if transaction.id() == id {
            Ok((transaction, p4))
        } else {
            Err(TransactionError::IdMismatch)
        }
    }

    /// Appends the encoding of the transaction to `out`.
    pub fn write_le(&self, out: &mut Vec<u8>)
        ensures
            final(out)@ == old(out)@ + spec_write(self@),
    {
        let ghost start = out@;
        out.push(0u8);
        match self {
            Transaction::Deploy(id, owner, deployment, fee) => {
                out.push(0u8);
                id.write_bytes_le(out);
                write_part(&owner.bytes, out);
                write_part(&deployment.bytes, out);
                write_part(&fee.bytes, out);
            },
            Transaction::Execute(id, execution, fee) => {
                out.push(1u8);
                id.write_bytes_le(out);
                write_part(&execution.bytes, out);
                match fee {
                    None => out.push(0u8),
                    Some(f) => {
                        out.push(1u8);
                        write_part(&f.bytes, out);
                    },
                }
            },
        }
        assert(out@ =~= start + spec_write(self@));
    }

    /// The encoding of the transaction.
    pub fn to_bytes_le(&self) -> (r: Vec<u8>)
        ensures
            r@ == spec_write(self@),
    {
        let mut r: Vec<u8> = Vec::new();
        self.write_le(&mut r);
        assert(r@ =~= spec_write(self@));
        r
    }
}


} // verus!
