//! Identifiers shared by every tier: actor addresses, 32-byte digests, the
//! transaction identity scheme and the bucket key of an account.

use vstd::prelude::*;
use vstd::string::StrSliceExecFns;

verus! {

/// Big-endian bytes of a 128-bit word.
pub open spec fn be_u128_bytes(x: u128) -> Seq<u8> {
    Seq::new(16, |i: int| ((x >> ((120 - 8 * i) as u32)) & 0xff) as u8)
}

/// Big-endian bytes of a 64-bit word.
pub open spec fn be_u64_bytes(x: u64) -> Seq<u8> {
    Seq::new(8, |i: int| ((x >> ((56 - 8 * i) as u32)) & 0xff) as u8)
}

/// The number that a big-endian byte string denotes.
pub open spec fn be_value(s: Seq<u8>) -> nat
    decreases s.len(),
{
    if s.len() == 0 {
        0
    } else {
        be_value(s.drop_last()) * 256 + s.last() as nat
    }
}

/// `256` to the power `n`.
pub open spec fn pow256(n: nat) -> nat
    decreases n,
{
    if n == 0 {
        1
    } else {
        256 * pow256((n - 1) as nat)
    }
}

proof fn lemma_be_value_bound(s: Seq<u8>)
    ensures
        be_value(s) < pow256(s.len()),
    decreases s.len(),
{
    if s.len() > 0 {
        lemma_be_value_bound(s.drop_last());
        let p = pow256((s.len() - 1) as nat);
        assert(be_value(s.drop_last()) * 256 + 255 < p * 256) by (nonlinear_arith)
            requires
                be_value(s.drop_last()) < p,
        ;
    }
}

proof fn lemma_pow256_mono(a: nat, b: nat)
    requires
        a <= b,
    ensures
        pow256(a) <= pow256(b),
    decreases b,
{
    if a < b {
        lemma_pow256_mono(a, (b - 1) as nat);
    }
}

/// Appends the big-endian bytes of `x` to `out`.
fn push_be_u128(out: &mut Vec<u8>, x: u128)
    ensures
        final(out)@ == old(out)@ + be_u128_bytes(x),
{
    let ghost start = out@;
    let mut i: usize = 0;
    while i < 16
        invariant
            i <= 16,
            out@ == start + be_u128_bytes(x).take(i as int),
        decreases 16 - i,
    {
        let b: u8 = ((x >> ((120 - 8 * i) as u32)) & 0xff) as u8;
        assert(be_u128_bytes(x).take(i as int + 1) =~= be_u128_bytes(x).take(i as int).push(b));
        out.push(b);
        i = i + 1;
    }
    assert(be_u128_bytes(x).take(16) =~= be_u128_bytes(x));
}

/// Appends the big-endian bytes of `x` to `out`.
fn push_be_u64(out: &mut Vec<u8>, x: u64)
    ensures
        final(out)@ == old(out)@ + be_u64_bytes(x),
{
    let ghost start = out@;
    let mut i: usize = 0;
    while i < 8
        invariant
            i <= 8,
            out@ == start + be_u64_bytes(x).take(i as int),
        decreases 8 - i,
    {
        let b: u8 = ((x >> ((56 - 8 * i) as u32)) & 0xff) as u8;
        assert(be_u64_bytes(x).take(i as int + 1) =~= be_u64_bytes(x).take(i as int).push(b));
        out.push(b);
        i = i + 1;
    }
    assert(be_u64_bytes(x).take(8) =~= be_u64_bytes(x));
}

/// Reads a 128-bit word from sixteen big-endian bytes starting at `from`.
fn read_be_u128(b: &[u8; 32], from: usize) -> (r: u128)
    requires
        from == 0 || from == 16,
    ensures
        r == be_value(b@.subrange(from as int, from + 16)),
{
    let mut acc: u128 = 0;
    let mut i: usize = 0;
    while i < 16
        invariant
            from == 0 || from == 16,
            i <= 16,
            b@.len() == 32,
            acc == be_value(b@.subrange(from as int, from + i)),
        decreases 16 - i,
    {
        let ghost prefix = b@.subrange(from as int, from + i);
        let ghost next = b@.subrange(from as int, from + i + 1);
        assert(next.drop_last() =~= prefix);
        proof {
            lemma_be_value_bound(prefix);
            lemma_pow256_mono(i as nat, 15);
            reveal_with_fuel(pow256, 16);
        }
        acc = acc * 256 + b[from + i] as u128;
        i = i + 1;
    }
    acc
}

/// The address of an actor: an opaque 32-byte value, held as two big-endian
/// halves.
#[derive(Clone, Copy, Debug, PartialEq, Eq, Structural, Hash)]
pub struct ActorId {
    pub hi: u128,
    pub lo: u128,
}

/// A 32-byte digest: a transaction hash or a program code hash.
#[derive(Clone, Copy, Debug, PartialEq, Eq, Structural, Hash)]
pub struct Hash256 {
    pub hi: u128,
    pub lo: u128,
}

impl ActorId {
    /// The key under which the account is held in ordered maps.
    pub open spec fn key(self) -> (u128, u128) {
        (self.hi, self.lo)
    }

    /// The 32 bytes of the address.
    pub open spec fn bytes(self) -> Seq<u8> {
        be_u128_bytes(self.hi) + be_u128_bytes(self.lo)
    }

    pub fn new(hi: u128, lo: u128) -> (r: ActorId)
        ensures
            r.hi == hi,
            r.lo == lo,
    {
        ActorId { hi, lo }
    }

    /// The address whose 32 bytes are `b`.
    pub fn from_bytes(b: &[u8; 32]) -> (r: ActorId)
        ensures
            r.hi == be_value(b@.subrange(0, 16)),
            r.lo == be_value(b@.subrange(16, 32)),
    {
        ActorId { hi: read_be_u128(b, 0), lo: read_be_u128(b, 16) }
    }

    pub fn to_bytes(&self) -> (r: Vec<u8>)
        ensures
            r@ == self.bytes(),
    {
        let mut out: Vec<u8> = Vec::new();
        push_be_u128(&mut out, self.hi);
        push_be_u128(&mut out, self.lo);
        out
    }

    pub fn key_of(&self) -> (r: (u128, u128))
        ensures
            r == self.key(),
    {
        (self.hi, self.lo)
    }
}

impl Hash256 {
    pub open spec fn key(self) -> (u128, u128) {
        (self.hi, self.lo)
    }

    pub open spec fn bytes(self) -> Seq<u8> {
        be_u128_bytes(self.hi) + be_u128_bytes(self.lo)
    }

    /// The digest that the 32 bytes `d` spell.
    pub open spec fn spec_from_digest(d: Seq<u8>) -> Hash256 {
        Hash256 { hi: be_value(d.subrange(0, 16)) as u128, lo: be_value(d.subrange(16, 32)) as u128 }
    }

    pub fn new(hi: u128, lo: u128) -> (r: Hash256)
        ensures
            r.hi == hi,
            r.lo == lo,
    {
        Hash256 { hi, lo }
    }

    pub fn from_bytes(b: &[u8; 32]) -> (r: Hash256)
        ensures
            r == Hash256::spec_from_digest(b@),
    {
        Hash256 { hi: read_be_u128(b, 0), lo: read_be_u128(b, 16) }
    }

    pub fn to_bytes(&self) -> (r: Vec<u8>)
        ensures
            r@ == self.bytes(),
    {
        let mut out: Vec<u8> = Vec::new();
        push_be_u128(&mut out, self.hi);
        push_be_u128(&mut out, self.lo);
        out
    }

    pub fn key_of(&self) -> (r: (u128, u128))
        ensures
            r == self.key(),
    {
        (self.hi, self.lo)
    }
}

/// The lower-case hexadecimal digits.
pub open spec fn hex_digits() -> Seq<char> {
    seq!['0', '1', '2', '3', '4', '5', '6', '7', '8', '9', 'a', 'b', 'c', 'd', 'e', 'f']
}

/// Lower-case hexadecimal text of a byte string: two digits per byte, high
/// nibble first.
pub open spec fn hex_lower(b: Seq<u8>) -> Seq<char> {
    Seq::new(
        2 * b.len(),
        |i: int|
            if i % 2 == 0 {
                hex_digits()[b[i / 2] as int / 16]
            } else {
                hex_digits()[b[i / 2] as int % 16]
            },
    )
}

/// Relies on hex::encode: lower-case hexadecimal, two digits per byte, high
/// nibble first.
#[verifier::external_body]
fn hex_encode(data: &[u8]) -> (r: String)
    ensures
        r@ == hex_lower(data@),
{
    hex::encode(data)
}

/// The name of the BLAKE2b-256 digest of a byte string.
pub uninterp spec fn blake2_256_of(data: Seq<u8>) -> Seq<u8>;

/// Relies on sp_core_hashing::blake2_256: the 32-byte BLAKE2b digest of
/// `data`, which depends on the bytes alone.
#[verifier::external_body]
fn blake2_256(data: &[u8]) -> (r: [u8; 32])
    ensures
        r@ == blake2_256_of(data@),
{
    sp_core_hashing::blake2_256(data)
}

/// The bytes that identify a user action: the caller's address, then the
/// transaction id in big-endian order.
pub open spec fn tx_preimage(account: ActorId, transaction_id: u64) -> Seq<u8> {
    account.bytes() + be_u64_bytes(transaction_id)
}

/// The transaction hash of `(account, transaction_id)`.
pub open spec fn spec_get_hash(account: ActorId, transaction_id: u64) -> Hash256 {
    Hash256::spec_from_digest(blake2_256_of(tx_preimage(account, transaction_id)))
}

/// Derives the global identity of a user action from the caller and the id
/// the caller gave it.
pub fn get_hash(account: &ActorId, transaction_id: u64) -> (r: Hash256)
    ensures
        r == spec_get_hash(*account, transaction_id),
{
    let mut data = account.to_bytes();
    push_be_u64(&mut data, transaction_id);
    let digest = blake2_256(data.as_slice());
    Hash256::from_bytes(&digest)
}

/// The hash derived from `h` for a follow-up step named by `tag`.
pub open spec fn spec_tagged_hash(h: Hash256, tag: Seq<u8>) -> Hash256 {
    Hash256::spec_from_digest(blake2_256_of(h.bytes() + tag))
}

/// The ASCII bytes of `abort`.
pub open spec fn abort_tag() -> Seq<u8> {
    seq![97u8, 98u8, 111u8, 114u8, 116u8]
}

/// The ASCII bytes of `permit`.
pub open spec fn permit_tag() -> Seq<u8> {
    seq![112u8, 101u8, 114u8, 109u8, 105u8, 116u8]
}

/// The hash under which the compensation of transaction `h` is applied.
pub open spec fn spec_abort_hash(h: Hash256) -> Hash256 {
    spec_tagged_hash(h, abort_tag())
}

/// The hash under which the permit nonce of transaction `h` is consumed.
pub open spec fn spec_permit_hash(h: Hash256) -> Hash256 {
    spec_tagged_hash(h, permit_tag())
}

/// Derives a hash from `h` and `tag`, distinct from `h` itself so that a
/// shard treats the follow-up step as a new mutation.
pub fn tagged_hash(h: &Hash256, tag: &[u8]) -> (r: Hash256)
    ensures
        r == spec_tagged_hash(*h, tag@),
{
    let mut data = h.to_bytes();
    let ghost start = data@;
    let mut i: usize = 0;
    while i < tag.len()
        invariant
            i <= tag@.len(),
            data@ == start + tag@.take(i as int),
        decreases tag@.len() - i,
    {
        assert(tag@.take(i as int + 1) =~= tag@.take(i as int).push(tag[i as int]));
        data.push(tag[i]);
        i = i + 1;
    }
    assert(tag@.take(tag@.len() as int) =~= tag@);
    let digest = blake2_256(data.as_slice());
    Hash256::from_bytes(&digest)
}

/// Derives the hash under which the compensation of `h` runs.
pub fn abort_hash(h: &Hash256) -> (r: Hash256)
    ensures
        r == spec_abort_hash(*h),
{
    let tag: [u8; 5] = [97u8, 98u8, 111u8, 114u8, 116u8];
    assert(tag@ =~= abort_tag());
    tagged_hash(h, &tag)
}

/// Derives the hash under which the permit nonce of `h` is consumed.
pub fn permit_hash(h: &Hash256) -> (r: Hash256)
    ensures
        r == spec_permit_hash(*h),
{
    let tag: [u8; 6] = [112u8, 101u8, 114u8, 109u8, 105u8, 116u8];
    assert(tag@ =~= permit_tag());
    tagged_hash(h, &tag)
}

/// The bucket of an account: the first lower-case hex digit of its address.
pub open spec fn spec_bucket_key(account: ActorId) -> char {
    hex_lower(account.bytes())[0]
}

/// Computes the bucket of an account.
pub fn bucket_key(account: &ActorId) -> (r: char)
    ensures
        r == spec_bucket_key(*account),
{
    let bytes = account.to_bytes();
    let text = hex_encode(bytes.as_slice());
    text.as_str().get_char(0)
}

/// The directory key of an account: its bucket digit as a code point.
pub open spec fn spec_bucket(a: ActorId) -> u32 {
    spec_bucket_key(a) as u32
}

pub fn bucket(a: &ActorId) -> (r: u32)
    ensures
        r == spec_bucket(*a),
{
    bucket_key(a) as u32
}

} // verus!
