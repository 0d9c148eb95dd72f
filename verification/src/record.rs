//! Records, and their decryption with a view key.
use vstd::prelude::*;
use crate::aleo::Aleo;
use crate::field::{Field, field_add, field_sub, lemma_sub_undoes_add, modulus};
use crate::value::{Address, Group, Identifier, Scalar};

verus! {

/// The field elements of an encrypted value.
#[derive(Debug)]
pub struct Ciphertext {
    pub fields: Vec<Field>,
}

/// A value in the clear, as the field elements that encode it.
#[derive(Debug)]
pub struct Plaintext {
    pub fields: Vec<Field>,
}

/// The owner of a record: a public address, or a private (encrypted or
/// decrypted) one.
#[derive(Debug)]
pub enum Owner<P> {
    Public(Address),
    Private(P),
}

/// An entry of a record: constant and public entries are in the clear, private
/// ones encrypted or decrypted.
#[derive(Debug)]
pub enum Entry<P> {
    Constant(Plaintext),
    Public(Plaintext),
    Private(P),
}

/// A record: its owner, its named entries in order, and its nonce. The entries
/// form a map from identifiers to entries that keeps their order: a sequence of
/// pairs whose identifiers are distinct, which `decryptable` asks of a record
/// that is decrypted.
#[derive(Debug)]
pub struct Record<P> {
    pub owner: Owner<P>,
    pub data: Vec<(Identifier, Entry<P>)>,
    pub nonce: Group,
}

/// The view key of an account.
#[derive(Clone, Copy, Debug)]
pub struct ViewKey {
    pub scalar: Scalar,
}

/// The number of randomizers that the owner takes: one when private.
pub open spec fn owner_randomizers(o: Owner<Ciphertext>) -> nat {
    match o {
        Owner::Public(_) => 0,
        Owner::Private(_) => 1,
    }
}

/// The number of randomizers that an entry takes: one per field element when
/// private, none else.
pub open spec fn entry_randomizers(e: Entry<Ciphertext>) -> nat {
    match e {
        Entry::Private(c) => c.fields@.len(),
        _ => 0,
    }
}

/// The number of randomizers that a sequence of entries takes.
pub open spec fn data_randomizers(data: Seq<(Identifier, Entry<Ciphertext>)>) -> nat
    decreases data.len(),
{
    if data.len() == 0 {
        0
    } else {
        data_randomizers(data.drop_last()) + entry_randomizers(data.last().1)
    }
}

/// The number of randomizers that decrypting the record takes.
pub open spec fn record_randomizers(r: Record<Ciphertext>) -> nat {
    owner_randomizers(r.owner) + data_randomizers(r.data@)
}

/// The position of the first randomizer of entry `i`.
pub open spec fn entry_offset(r: Record<Ciphertext>, i: int) -> nat {
    owner_randomizers(r.owner) + data_randomizers(r.data@.take(i))
}

/// The identifiers of the first `n` entries are pairwise distinct.
pub open spec fn distinct_ids<P>(data: Seq<(Identifier, Entry<P>)>, n: int) -> bool {
    forall|i: int, j: int| 0 <= i < n && 0 <= j < n && i != j ==> data[i].0 != data[j].0
}

/// `p` holds the differences `c[k] - r[k]`, one per element of `c`.
pub open spec fn decrypted_fields(c: Seq<Field>, r: Seq<Field>, p: Seq<Field>) -> bool {
    &&& p.len() == c.len()
    &&& forall|k: int| 0 <= k < c.len() ==> #[trigger] p[k]@ == field_sub(c[k]@, r[k]@)
}

/// `p` is the owner `c` decrypted with the randomizers `r`.
pub open spec fn owner_decrypts_to(c: Owner<Ciphertext>, p: Owner<Plaintext>, r: Seq<Field>) -> bool {
    match (c, p) {
        (Owner::Public(a), Owner::Public(b)) => a == b,
        (Owner::Private(x), Owner::Private(y)) => y.fields@.len() == 1 && y.fields@[0]@ == field_sub(
            x.fields@[0]@,
            r[0]@,
        ),
        _ => false,
    }
}

/// `p` is the entry `c` decrypted with the randomizers `r`: entries in the
/// clear stay as they are.
pub open spec fn entry_decrypts_to(c: Entry<Ciphertext>, p: Entry<Plaintext>, r: Seq<Field>) -> bool {
    match (c, p) {
        (Entry::Constant(a), Entry::Constant(b)) => a.fields@ == b.fields@,
        (Entry::Public(a), Entry::Public(b)) => a.fields@ == b.fields@,
        (Entry::Private(a), Entry::Private(b)) => decrypted_fields(a.fields@, r, b.fields@),
        _ => false,
    }
}

/// `p` is the record `c` decrypted with the randomizers `r`: the owner with the
/// first randomizer when private, then each entry in order with the next ones,
/// and the nonce kept.
pub open spec fn record_decrypts_to(c: Record<Ciphertext>, p: Record<Plaintext>, r: Seq<Field>) -> bool {
    &&& p.nonce == c.nonce
    &&& owner_decrypts_to(c.owner, p.owner, r)
    &&& p.data@.len() == c.data@.len()
    &&& forall|i: int|
        0 <= i < c.data@.len() ==> {
            &&& (#[trigger] p.data@[i]).0 == c.data@[i].0
            &&& entry_decrypts_to(
                c.data@[i].1,
                p.data@[i].1,
                r.subrange(
                    entry_offset(c, i) as int,
                    (entry_offset(c, i) + entry_randomizers(c.data@[i].1)) as int,
                ),
            )
        }
}

/// The record can be decrypted: a private owner is one field element, and no
/// two entries share an identifier (the entries form a map). The decryption
/// halts on other records.
pub open spec fn decryptable(c: Record<Ciphertext>) -> bool {
    &&& (c.owner matches Owner::Private(x) ==> x.fields@.len() == 1)
    &&& distinct_ids(c.data@, c.data@.len() as int)
}

/// Two decrypted records hold the same values: the same owner, the same
/// entries (identifier, kind and field elements) in order, and the same nonce.
pub open spec fn same_plaintext_record(p: Record<Plaintext>, q: Record<Plaintext>) -> bool {
    &&& p.nonce == q.nonce
    &&& match (p.owner, q.owner) {
        (Owner::Public(a), Owner::Public(b)) => a == b,
        (Owner::Private(x), Owner::Private(y)) => x.fields@ == y.fields@,
        _ => false,
    }
    &&& p.data@.len() == q.data@.len()
    &&& forall|i: int|
        0 <= i < p.data@.len() ==> {
            &&& (#[trigger] p.data@[i]).0 == q.data@[i].0
            &&& match (p.data@[i].1, q.data@[i].1) {
                (Entry::Constant(a), Entry::Constant(b)) => a.fields@ == b.fields@,
                (Entry::Public(a), Entry::Public(b)) => a.fields@ == b.fields@,
                (Entry::Private(a), Entry::Private(b)) => a.fields@ == b.fields@,
                _ => false,
            }
        }
}

proof fn lemma_fields_unique(p: Seq<Field>, q: Seq<Field>, f: spec_fn(int) -> int)
    requires
        p.len() == q.len(),
        forall|k: int| 0 <= k < p.len() ==> #[trigger] p[k]@ == f(k),
        forall|k: int| 0 <= k < q.len() ==> #[trigger] q[k]@ == f(k),
    ensures
        p == q,
{
    assert forall|k: int| 0 <= k < p.len() implies p[k] == q[k] by {
        Field::lemma_view_injective(p[k], q[k]);
    }
    assert(p =~= q);
}

/// The decryption of a record with given randomizers is unique: two records
/// that both are its decryption hold the same values.
pub proof fn lemma_decryption_is_unique(c: Record<Ciphertext>, p: Record<Plaintext>, q: Record<Plaintext>, r: Seq<Field>)
    requires
        record_decrypts_to(c, p, r),
        record_decrypts_to(c, q, r),
    ensures
        same_plaintext_record(p, q),
{
    if let (Owner::Private(x), Owner::Private(y)) = (p.owner, q.owner) {
        Field::lemma_view_injective(x.fields@[0], y.fields@[0]);
        assert(x.fields@ =~= y.fields@);
    }
    assert forall|i: int| 0 <= i < p.data@.len() implies {
        &&& (#[trigger] p.data@[i]).0 == q.data@[i].0
        &&& match (p.data@[i].1, q.data@[i].1) {
            (Entry::Constant(a), Entry::Constant(b)) => a.fields@ == b.fields@,
            (Entry::Public(a), Entry::Public(b)) => a.fields@ == b.fields@,
            (Entry::Private(a), Entry::Private(b)) => a.fields@ == b.fields@,
            _ => false,
        }
    } by {
        assert(q.data@[i].0 == c.data@[i].0);
        let sub = r.subrange(
            entry_offset(c, i) as int,
            (entry_offset(c, i) + entry_randomizers(c.data@[i].1)) as int,
        );
        if let (Entry::Private(a), Entry::Private(b), Entry::Private(e)) = (p.data@[i].1, q.data@[i].1, c.data@[i].1) {
            lemma_fields_unique(a.fields@, b.fields@, |k: int| field_sub(e.fields@[k]@, sub[k]@));
        }
    }
}

/// The field elements of the private entries of a sequence of encrypted
/// entries, in order.
pub open spec fn cipher_private_fields(data: Seq<(Identifier, Entry<Ciphertext>)>) -> Seq<Field>
    decreases data.len(),
{
    if data.len() == 0 {
        Seq::empty()
    } else {
        cipher_private_fields(data.drop_last()) + match data.last().1 {
            Entry::Private(x) => x.fields@,
            _ => Seq::empty(),
        }
    }
}

/// The field elements of the private entries of a sequence of decrypted
/// entries, in order.
pub open spec fn plain_private_fields(data: Seq<(Identifier, Entry<Plaintext>)>) -> Seq<Field>
    decreases data.len(),
{
    if data.len() == 0 {
        Seq::empty()
    } else {
        plain_private_fields(data.drop_last()) + match data.last().1 {
            Entry::Private(x) => x.fields@,
            _ => Seq::empty(),
        }
    }
}

/// The field elements of an encrypted owner: none when public.
pub open spec fn cipher_owner_fields(o: Owner<Ciphertext>) -> Seq<Field> {
    match o {
        Owner::Public(_) => Seq::empty(),
        Owner::Private(x) => x.fields@,
    }
}

/// The field elements of a decrypted owner: none when public.
pub open spec fn plain_owner_fields(o: Owner<Plaintext>) -> Seq<Field> {
    match o {
        Owner::Public(_) => Seq::empty(),
        Owner::Private(x) => x.fields@,
    }
}

/// All the encrypted field elements of a record: the private owner's, then
/// those of the private entries in order.
pub open spec fn cipher_record_fields(c: Record<Ciphertext>) -> Seq<Field> {
    cipher_owner_fields(c.owner) + cipher_private_fields(c.data@)
}

/// All the decrypted field elements of a record: the private owner's, then
/// those of the private entries in order.
pub open spec fn plain_record_fields(p: Record<Plaintext>) -> Seq<Field> {
    plain_owner_fields(p.owner) + plain_private_fields(p.data@)
}

proof fn lemma_data_randomizers_is_field_count(data: Seq<(Identifier, Entry<Ciphertext>)>)
    ensures
        data_randomizers(data) == cipher_private_fields(data).len(),
    decreases data.len(),
{
    if data.len() > 0 {
        lemma_data_randomizers_is_field_count(data.drop_last());
    }
}

/// A record takes one randomizer per encrypted field element: one for a
/// private owner, and one per field element of each private entry.
pub proof fn lemma_randomizers_are_one_per_field(c: Record<Ciphertext>)
    requires
        decryptable(c),
    ensures
        record_randomizers(c) == cipher_record_fields(c).len(),
{
    lemma_data_randomizers_is_field_count(c.data@);
}

proof fn lemma_decrypt_prefix(c: Record<Ciphertext>, p: Record<Plaintext>, r: Seq<Field>, n: int)
    requires
        record_decrypts_to(c, p, r),
        record_randomizers(c) <= r.len(),
        0 <= n <= c.data@.len(),
    ensures
        plain_private_fields(p.data@.take(n)).len() == cipher_private_fields(c.data@.take(n)).len(),
        forall|k: int|
            0 <= k < cipher_private_fields(c.data@.take(n)).len() ==> #[trigger] plain_private_fields(
                p.data@.take(n),
            )[k]@ == field_sub(
                cipher_private_fields(c.data@.take(n))[k]@,
                r[owner_randomizers(c.owner) + k]@,
            ),
    decreases n,
{
    if n == 0 {
        assert(c.data@.take(0) =~= Seq::<(Identifier, Entry<Ciphertext>)>::empty());
        assert(p.data@.take(0) =~= Seq::<(Identifier, Entry<Plaintext>)>::empty());
    } else {
        lemma_decrypt_prefix(c, p, r, n - 1);
        let i = n - 1;
        assert(c.data@.take(n).drop_last() =~= c.data@.take(i));
        assert(p.data@.take(n).drop_last() =~= p.data@.take(i));
        assert(c.data@.take(n).last() == c.data@[i]);
        assert(p.data@.take(n).last() == p.data@[i]);
        let cf = cipher_private_fields(c.data@.take(i));
        let pf = plain_private_fields(p.data@.take(i));
        lemma_data_randomizers_is_field_count(c.data@.take(i));
        let o = owner_randomizers(c.owner) as int;
        let start = entry_offset(c, i) as int;
        assert(start == o + cf.len());
        lemma_data_randomizers_step(c.data@, i);
        lemma_data_randomizers_prefix(c.data@, n);
        let sub = r.subrange(start, (entry_offset(c, i) + entry_randomizers(c.data@[i].1)) as int);
        assert(entry_decrypts_to(c.data@[i].1, p.data@[i].1, sub));
        if let (Entry::Private(a), Entry::Private(b)) = (c.data@[i].1, p.data@[i].1) {
            let cf2 = cipher_private_fields(c.data@.take(n));
            let pf2 = plain_private_fields(p.data@.take(n));
            assert(cf2 == cf + a.fields@);
            assert(pf2 == pf + b.fields@);
            assert forall|k: int| 0 <= k < cf2.len() implies #[trigger] pf2[k]@ == field_sub(cf2[k]@, r[o + k]@) by {
                if k < cf.len() {
                    assert(pf2[k] == pf[k]);
                    assert(cf2[k] == cf[k]);
                } else {
                    let j = k - cf.len();
                    assert(pf2[k] == b.fields@[j]);
                    assert(cf2[k] == a.fields@[j]);
                    assert(sub[j] == r[o + k]);
                }
            }
        } else {
            assert(cipher_private_fields(c.data@.take(n)) =~= cf);
            assert(plain_private_fields(p.data@.take(n)) =~= pf);
        }
    }
}

/// Decryption subtracts the randomizers one by one, in order, from the
/// record's encrypted field elements (the private owner's, then those of the
/// private entries in order): the `k`-th decrypted field element is the `k`-th
/// encrypted one minus the `k`-th randomizer.
pub proof fn lemma_decrypt_subtracts_randomizers_in_order(c: Record<Ciphertext>, p: Record<Plaintext>, r: Seq<Field>)
    requires
        decryptable(c),
        record_randomizers(c) <= r.len(),
        record_decrypts_to(c, p, r),
    ensures
        plain_record_fields(p).len() == cipher_record_fields(c).len(),
        forall|k: int|
            0 <= k < cipher_record_fields(c).len() ==> #[trigger] plain_record_fields(p)[k]@ == field_sub(
                cipher_record_fields(c)[k]@,
                r[k]@,
            ),
{
    let n = c.data@.len() as int;
    lemma_decrypt_prefix(c, p, r, n);
    assert(c.data@.take(n) =~= c.data@);
    assert(p.data@.take(n) =~= p.data@);
    let o = owner_randomizers(c.owner) as int;
    assert(cipher_owner_fields(c.owner).len() == o);
    assert(plain_owner_fields(p.owner).len() == o);
    let cf = cipher_record_fields(c);
    let pf = plain_record_fields(p);
    assert forall|k: int| 0 <= k < cf.len() implies #[trigger] pf[k]@ == field_sub(cf[k]@, r[k]@) by {
        if k < o {
            assert(pf[k] == plain_owner_fields(p.owner)[0]);
            assert(cf[k] == cipher_owner_fields(c.owner)[0]);
        } else {
            assert(pf[k] == plain_private_fields(p.data@)[k - o]);
            assert(cf[k] == cipher_private_fields(c.data@)[k - o]);
        }
    }
}

/// Every element lies in `[0, p)`, as every field element does.
pub open spec fn canonical(s: Seq<Field>) -> bool {
    forall|k: int| 0 <= k < s.len() ==> 0 <= #[trigger] s[k]@ < modulus()
}

/// `c` holds the sums `p[k] + r[k]`, one per element of `p`.
pub open spec fn encrypted_fields(p: Seq<Field>, r: Seq<Field>, c: Seq<Field>) -> bool {
    &&& c.len() == p.len()
    &&& forall|k: int| 0 <= k < p.len() ==> #[trigger] c[k]@ == field_add(p[k]@, r[k]@)
}

/// `c` is the record `p` encrypted with the randomizers `r`: a private owner
/// with the first, each private entry with the next ones, in order.
pub open spec fn record_encrypts_to(p: Record<Plaintext>, c: Record<Ciphertext>, r: Seq<Field>) -> bool {
    &&& c.nonce == p.nonce
    &&& match (p.owner, c.owner) {
        (Owner::Public(a), Owner::Public(b)) => a == b,
        (Owner::Private(x), Owner::Private(y)) => x.fields@.len() == 1 && y.fields@.len() >= 1
            && y.fields@[0]@ == field_add(x.fields@[0]@, r[0]@),
        _ => false,
    }
    &&& c.data@.len() == p.data@.len()
    &&& forall|i: int|
        0 <= i < p.data@.len() ==> {
            &&& (#[trigger] c.data@[i]).0 == p.data@[i].0
            &&& match (p.data@[i].1, c.data@[i].1) {
                (Entry::Constant(a), Entry::Constant(b)) => a.fields@ == b.fields@,
                (Entry::Public(a), Entry::Public(b)) => a.fields@ == b.fields@,
                (Entry::Private(a), Entry::Private(b)) => encrypted_fields(
                    a.fields@,
                    r.subrange(
                        entry_offset(c, i) as int,
                        (entry_offset(c, i) + entry_randomizers(c.data@[i].1)) as int,
                    ),
                    b.fields@,
                ),
                _ => false,
            }
        }
}

/// The field elements of a plaintext record all lie in `[0, p)`.
pub open spec fn plaintext_canonical(p: Record<Plaintext>) -> bool {
    &&& (p.owner matches Owner::Private(x) ==> canonical(x.fields@))
    &&& forall|i: int|
        0 <= i < p.data@.len() ==> ((#[trigger] p.data@[i]).1 matches Entry::Private(x) ==> canonical(
            x.fields@,
        ))
}

/// Decrypting a record that was encrypted with the same randomizers gives the
/// record back.
pub proof fn lemma_decrypt_undoes_encrypt(p: Record<Plaintext>, c: Record<Ciphertext>, r: Seq<Field>)
    requires
        plaintext_canonical(p),
        record_randomizers(c) <= r.len(),
        record_encrypts_to(p, c, r),
    ensures
        record_decrypts_to(c, p, r),
{
    if let (Owner::Private(x), Owner::Private(y)) = (p.owner, c.owner) {
        lemma_sub_undoes_add(x.fields@[0]@, r[0]@);
    }
    assert forall|i: int| 0 <= i < c.data@.len() implies {
        &&& (#[trigger] p.data@[i]).0 == c.data@[i].0
        &&& entry_decrypts_to(
            c.data@[i].1,
            p.data@[i].1,
            r.subrange(
                entry_offset(c, i) as int,
                (entry_offset(c, i) + entry_randomizers(c.data@[i].1)) as int,
            ),
        )
    } by {
        assert(c.data@[i].0 == p.data@[i].0);
        let sub = r.subrange(
            entry_offset(c, i) as int,
            (entry_offset(c, i) + entry_randomizers(c.data@[i].1)) as int,
        );
        if let (Entry::Private(a), Entry::Private(b)) = (p.data@[i].1, c.data@[i].1) {
            lemma_data_randomizers_step(c.data@, i);
            lemma_data_randomizers_prefix(c.data@, i + 1);
            assert forall|k: int| 0 <= k < b.fields@.len() implies #[trigger] a.fields@[k]@ == field_sub(
                b.fields@[k]@,
                sub[k]@,
            ) by {
                assert(b.fields@[k]@ == field_add(a.fields@[k]@, sub[k]@));
                assert(canonical(a.fields@));
                assert(0 <= a.fields@[k]@ < modulus());
                assert(sub[k] == r[entry_offset(c, i) + k]);
                lemma_sub_undoes_add(a.fields@[k]@, sub[k]@);
            }
        }
    }
}

/// Decryption reads no randomizer past the record's count: two sequences of
/// randomizers that agree on their first `record_randomizers(c)` elements
/// decrypt the record alike.
pub proof fn lemma_decrypt_reads_only_its_randomizers(
    c: Record<Ciphertext>,
    r1: Seq<Field>,
    r2: Seq<Field>,
    result: Record<Plaintext>,
)
    requires
        record_randomizers(c) <= r1.len(),
        record_randomizers(c) <= r2.len(),
        r1.take(record_randomizers(c) as int) == r2.take(record_randomizers(c) as int),
    ensures
        record_decrypts_to(c, result, r1) == record_decrypts_to(c, result, r2),
{
    let n = record_randomizers(c) as int;
    if c.owner is Private {
        assert(r1[0] == r1.take(n)[0]);
        assert(r2[0] == r2.take(n)[0]);
    }
    assert forall|i: int| 0 <= i < c.data@.len() implies r1.subrange(
        entry_offset(c, i) as int,
        (entry_offset(c, i) + entry_randomizers(c.data@[i].1)) as int,
    ) == r2.subrange(
        entry_offset(c, i) as int,
        (entry_offset(c, i) + entry_randomizers(c.data@[i].1)) as int,
    ) by {
        lemma_data_randomizers_step(c.data@, i);
        lemma_data_randomizers_prefix(c.data@, i + 1);
        let a = entry_offset(c, i) as int;
        let b = (entry_offset(c, i) + entry_randomizers(c.data@[i].1)) as int;
        assert forall|k: int| 0 <= k < b - a implies r1.subrange(a, b)[k] == r2.subrange(a, b)[k] by {
            assert(r1[a + k] == r1.take(n)[a + k]);
            assert(r2[a + k] == r2.take(n)[a + k]);
        }
        assert(r1.subrange(a, b) =~= r2.subrange(a, b));
    }
}

proof fn lemma_data_randomizers_step(data: Seq<(Identifier, Entry<Ciphertext>)>, i: int)
    requires
        0 <= i < data.len(),
    ensures
        data_randomizers(data.take(i + 1)) == data_randomizers(data.take(i)) + entry_randomizers(data[i].1),
{
    assert(data.take(i + 1).drop_last() =~= data.take(i));
}

proof fn lemma_data_randomizers_prefix(data: Seq<(Identifier, Entry<Ciphertext>)>, i: int)
    requires
        0 <= i <= data.len(),
    ensures
        data_randomizers(data.take(i)) <= data_randomizers(data),
    decreases data.len() - i,
{
    if i < data.len() {
        lemma_data_randomizers_step(data, i);
        lemma_data_randomizers_prefix(data, i + 1);
    } else {
        assert(data.take(i) =~= data);
    }
}

/// Copies a sequence of field elements.
fn copy_fields(v: &Vec<Field>) -> (r: Vec<Field>)
    ensures
        r@ == v@,
{
    let mut r: Vec<Field> = Vec::new();
    for i in 0..v.len()
        invariant
            r@ == v@.take(i as int),
    {
        r.push(v[i]);
        assert(v@.take(i + 1) =~= v@.take(i as int).push(v@[i as int]));
    }
    assert(v@.take(v.len() as int) =~= v@);
    r
}

/// The differences `c[k] - randomizers[start + k]`.
fn decrypt_fields(c: &Vec<Field>, randomizers: &[Field], start: usize) -> (r: Vec<Field>)
    requires
        start + c@.len() <= randomizers@.len(),
    ensures
        decrypted_fields(c@, randomizers@.subrange(start as int, start + c@.len()), r@),
{
    let mut r: Vec<Field> = Vec::new();
    for k in 0..c.len()
        invariant
            start + c@.len() <= randomizers@.len(),
            c@.len() == c.len(),
            randomizers@.len() == randomizers.len(),
            r@.len() == k,
            forall|j: int| 0 <= j < k ==> #[trigger] r@[j]@ == field_sub(c@[j]@, randomizers@[start + j]@),
    {
        r.push(c[k].sub(&randomizers[start + k]));
    }
    r
}

impl Record<Ciphertext> {
    /// The number of randomizers that decrypting the record takes.
    pub fn num_randomizers(&self) -> (r: u16)
        requires
            record_randomizers(*self) <= u16::MAX,
        ensures
            r == record_randomizers(*self),
    {
        let mut n: u16 = match &self.owner {
            Owner::Public(_) => 0,
            Owner::Private(_) => 1,
        };
        for i in 0..self.data.len()
            invariant
                record_randomizers(*self) <= u16::MAX,
                n == owner_randomizers(self.owner) + data_randomizers(self.data@.take(i as int)),
        {
            proof {
                lemma_data_randomizers_step(self.data@, i as int);
                lemma_data_randomizers_prefix(self.data@, i + 1);
            }
            let k: u16 = match &self.data[i].1 {
                Entry::Private(c) => c.fields.len() as u16,
                _ => 0,
            };
            n = n + k;
        }
        proof {
            assert(self.data@.take(self.data@.len() as int) =~= self.data@);
        }
        n
    }

    /// Decrypts the record with the given randomizers: a private owner with the
    /// first, then each private entry with as many of the next ones as it has
    /// field elements.
    pub fn decrypt_with_randomizers(&self, randomizers: &[Field]) -> (r: Record<Plaintext>)
        requires
            decryptable(*self),
            record_randomizers(*self) <= randomizers@.len(),
        ensures
            record_decrypts_to(*self, r, randomizers@),
    {
        let mut index: usize = 0;
        let owner = match &self.owner {
            Owner::Public(a) => Owner::Public(*a),
            Owner::Private(c) => {
                index = 1;
                let mut f: Vec<Field> = Vec::new();
                f.push(c.fields[0].sub(&randomizers[0]));
                Owner::Private(Plaintext { fields: f })
            },
        };
        let mut data: Vec<(Identifier, Entry<Plaintext>)> = Vec::new();
        for i in 0..self.data.len()
            invariant
                decryptable(*self),
                record_randomizers(*self) <= randomizers@.len(),
                index == entry_offset(*self, i as int),
                data@.len() == i,
                forall|j: int|
                    0 <= j < i ==> {
                        &&& (#[trigger] data@[j]).0 == self.data@[j].0
                        &&& entry_decrypts_to(
                            self.data@[j].1,
                            data@[j].1,
                            randomizers@.subrange(
                                entry_offset(*self, j) as int,
                                (entry_offset(*self, j) + entry_randomizers(self.data@[j].1)) as int,
                            ),
                        )
                    },
        {
            let id = self.data[i].0;
            proof {
                lemma_data_randomizers_step(self.data@, i as int);
                lemma_data_randomizers_prefix(self.data@, i + 1);
            }
            let entry = match &self.data[i].1 {
                Entry::Constant(p) => Entry::Constant(Plaintext { fields: copy_fields(&p.fields) }),
                Entry::Public(p) => Entry::Public(Plaintext { fields: copy_fields(&p.fields) }),
                Entry::Private(c) => {
                    assert(entry_randomizers(self.data@[i as int].1) == c.fields@.len());
                    assert(entry_offset(*self, i + 1) == index + c.fields@.len());
                    assert(index + c.fields@.len() <= randomizers@.len());
                    let n = c.fields.len();
                    assert(randomizers@.len() == randomizers.len());
                    let f = decrypt_fields(&c.fields, randomizers, index);
                    index = index + n;
                    Entry::Private(Plaintext { fields: f })
                },
            };
            data.push((id, entry));
        }
        proof {
            assert(self.data@.take(self.data@.len() as int) =~= self.data@);
        }
        Record { owner, data, nonce: self.nonce }
    }

    /// Decrypts the record with the given record view key: the randomizers are
    /// squeezed out of the encryption domain and the key.
    pub fn decrypt_symmetric<A: Aleo>(&self, record_view_key: Field) -> (r: Record<Plaintext>)
        requires
            decryptable(*self),
            record_randomizers(*self) <= u16::MAX,
        ensures
            record_decrypts_to(
                *self,
                r,
                A::spec_hash_many_psd8(
                    seq![A::spec_encryption_domain(), record_view_key],
                    record_randomizers(*self) as u16,
                ),
            ),
    {
        let num_randomizers = self.num_randomizers();
        let input = [A::encryption_domain(), record_view_key];
        assert(input@ =~= seq![A::spec_encryption_domain(), record_view_key]);
        let randomizers = A::hash_many_psd8(&input, num_randomizers);
        self.decrypt_with_randomizers(randomizers.as_slice())
    }

    /// Decrypts the record with the given view key: the record view key is the
    /// x-coordinate of the view key times the nonce.
    pub fn decrypt<A: Aleo>(&self, view_key: &ViewKey) -> (r: Record<Plaintext>)
        requires
            decryptable(*self),
            record_randomizers(*self) <= u16::MAX,
        ensures
            record_decrypts_to(
                *self,
                r,
                A::spec_hash_many_psd8(
                    seq![
                        A::spec_encryption_domain(),
                        A::spec_scalar_multiply(self.nonce, view_key.scalar).x,
                    ],
                    record_randomizers(*self) as u16,
                ),
            ),
    {
        let record_view_key = A::scalar_multiply(&self.nonce, &view_key.scalar).x;
        self.decrypt_symmetric::<A>(record_view_key)
    }
}

} // verus!
