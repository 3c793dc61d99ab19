//! Content hashes, agent keys and signatures, and the byte order on hashes.
use vstd::prelude::*;

verus! {

/// What a hash addresses.
#[derive(Clone, Copy, Debug, PartialEq, Eq, Structural)]
pub enum HashKind {
    Entry,
    Header,
    DhtOp,
    Dna,
}

/// A content hash: 64 bytes of BLAKE2b output, tagged by the kind of object hashed.
#[derive(Clone, Copy, Debug, PartialEq, Eq)]
pub struct HoloHash {
    pub kind: HashKind,
    pub bytes: [u8; 64],
}

/// The public key of an agent (an Ed25519 key).
#[derive(Clone, Copy, Debug, PartialEq, Eq)]
pub struct AgentPubKey {
    pub key: [u8; 32],
}

/// An Ed25519 signature.
#[derive(Clone, Copy, Debug, PartialEq, Eq)]
pub struct Signature {
    pub bytes: [u8; 64],
}

impl View for HoloHash {
    type V = (HashKind, Seq<u8>);

    open spec fn view(&self) -> (HashKind, Seq<u8>) {
        (self.kind, self.bytes@)
    }
}

/// The BLAKE2b-512 digest of a byte string.
pub uninterp spec fn blake2b_512(data: Seq<u8>) -> Seq<u8>;

/// Relies on `blake2b_simd::blake2b`: the default-parameter BLAKE2b digest of the
/// input, 64 bytes long, which depends on the input bytes alone.
#[verifier::external_body]
fn blake2b(data: &[u8]) -> (r: [u8; 64])
    ensures
        r@ == blake2b_512(data@),
{
    *blake2b_simd::blake2b(data).as_array()
}

/// Whether the Ed25519 signature `sig` over `msg` verifies (strictly) under `key`.
pub uninterp spec fn ed25519_accepts(key: Seq<u8>, msg: Seq<u8>, sig: Seq<u8>) -> bool;

/// Whether the 32 bytes are the compressed form of a curve point usable as an Ed25519 key.
pub uninterp spec fn ed25519_key_decodes(key: Seq<u8>) -> bool;

/// Relies on `ed25519_dalek::VerifyingKey::from_bytes`, `ed25519::Signature::from_bytes` and
/// `VerifyingKey::verify_strict`: a key that does not decode verifies nothing.
#[verifier::external_body]
fn ed25519_verify(key: &[u8; 32], msg: &[u8], sig: &[u8; 64]) -> (r: bool)
    ensures
        r == ed25519_accepts(key@, msg@, sig@),
        r ==> ed25519_key_decodes(key@),
{
    match ed25519_dalek::VerifyingKey::from_bytes(key) {
        Ok(vk) => vk.verify_strict(msg, &ed25519_dalek::Signature::from_bytes(sig)).is_ok(),
        Err(_) => false,
    }
}

/// Relies on `ed25519_dalek::VerifyingKey::from_bytes`: whether the key decompresses.
#[verifier::external_body]
fn ed25519_decodes(key: &[u8; 32]) -> (r: bool)
    ensures
        r == ed25519_key_decodes(key@),
{
    ed25519_dalek::VerifyingKey::from_bytes(key).is_ok()
}

impl HoloHash {
    /// The hash of `content` as an object of the given kind.
    pub fn of_content(kind: HashKind, content: &[u8]) -> (r: HoloHash)
        ensures
            r@ == (kind, blake2b_512(content@)),
    {
        HoloHash { kind, bytes: blake2b(content) }
    }

    /// Exact equality of two hashes (kind and every byte).
    pub fn same(&self, other: &HoloHash) -> (r: bool)
        ensures
            r == (*self == *other),
            r == (self@ == other@),
    {
        if self.kind != other.kind {
            return false;
        }
        let mut i: usize = 0;
        while i < 64
            invariant
                0 <= i <= 64,
                forall|j: int| 0 <= j < i ==> self.bytes[j] == other.bytes[j],
            decreases 64 - i,
        {
            if self.bytes[i] != other.bytes[i] {
                assert(self.bytes@[i as int] != other.bytes@[i as int]);
                return false;
            }
            i = i + 1;
        }
        assert(self.bytes =~= other.bytes);
        assert(self.bytes@ =~= other.bytes@);
        true
    }
}

impl AgentPubKey {
    /// Exact equality of two keys.
    pub fn same(&self, other: &AgentPubKey) -> (r: bool)
        ensures
            r == (*self == *other),
    {
        let mut i: usize = 0;
        while i < 32
            invariant
                0 <= i <= 32,
                forall|j: int| 0 <= j < i ==> self.key[j] == other.key[j],
            decreases 32 - i,
        {
            if self.key[i] != other.key[i] {
                assert(self.key@[i as int] != other.key@[i as int]);
                return false;
            }
            i = i + 1;
        }
        assert(self.key =~= other.key);
        true
    }

    /// Whether this is a well-formed agent key: its bytes decode to an Ed25519 key.
    pub fn is_well_formed(&self) -> (r: bool)
        ensures
            r == ed25519_key_decodes(self.key@),
    {
        ed25519_decodes(&self.key)
    }

    /// Whether `sig` is this agent's signature over `msg`.
    pub fn verifies(&self, msg: &[u8], sig: &Signature) -> (r: bool)
        ensures
            r == ed25519_accepts(self.key@, msg@, sig.bytes@),
    {
        ed25519_verify(&self.key, msg, &sig.bytes)
    }
}

/// Lexicographic order on byte strings; a proper prefix comes first.
pub open spec fn bytes_lt(a: Seq<u8>, b: Seq<u8>) -> bool
    decreases a.len(),
{
    if a.len() == 0 || b.len() == 0 {
        a.len() < b.len()
    } else if a[0] != b[0] {
        a[0] < b[0]
    } else {
        bytes_lt(a.drop_first(), b.drop_first())
    }
}

pub proof fn lemma_bytes_lt_irreflexive(a: Seq<u8>)
    ensures
        !bytes_lt(a, a),
    decreases a.len(),
{
    if a.len() > 0 {
        lemma_bytes_lt_irreflexive(a.drop_first());
    }
}

pub proof fn lemma_bytes_lt_transitive(a: Seq<u8>, b: Seq<u8>, c: Seq<u8>)
    requires
        bytes_lt(a, b),
        bytes_lt(b, c),
    ensures
        bytes_lt(a, c),
    decreases a.len(),
{
    if a.len() > 0 && b.len() > 0 && c.len() > 0 && a[0] == b[0] && b[0] == c[0] {
        lemma_bytes_lt_transitive(a.drop_first(), b.drop_first(), c.drop_first());
    }
}

pub proof fn lemma_bytes_lt_total(a: Seq<u8>, b: Seq<u8>)
    ensures
        a == b || bytes_lt(a, b) || bytes_lt(b, a),
    decreases a.len(),
{
    if a.len() == 0 || b.len() == 0 {
        if a.len() == 0 && b.len() == 0 {
            assert(a =~= b);
        }
    } else if a[0] == b[0] {
        lemma_bytes_lt_total(a.drop_first(), b.drop_first());
        if a.drop_first() == b.drop_first() {
            assert(a =~= seq![a[0]] + a.drop_first());
            assert(b =~= seq![b[0]] + b.drop_first());
        }
    }
}

pub proof fn lemma_bytes_lt_asymmetric(a: Seq<u8>, b: Seq<u8>)
    requires
        bytes_lt(a, b),
    ensures
        !bytes_lt(b, a),
    decreases a.len(),
{
    if a.len() > 0 && b.len() > 0 && a[0] == b[0] {
        lemma_bytes_lt_asymmetric(a.drop_first(), b.drop_first());
    }
}

/// Compares two hashes' bytes: -1, 0 or 1 as `a` comes before, equals or follows `b`.
pub fn compare_hash_bytes(a: &HoloHash, b: &HoloHash) -> (r: i8)
    ensures
        r == 0 <==> a.bytes@ == b.bytes@,
        r < 0 <==> bytes_lt(a.bytes@, b.bytes@),
        r > 0 <==> bytes_lt(b.bytes@, a.bytes@),
{
    let mut i: usize = 0;
    proof {
        assert(a.bytes@.skip(0) =~= a.bytes@);
        assert(b.bytes@.skip(0) =~= b.bytes@);
    }
    while i < 64
        invariant
            0 <= i <= 64,
            a.bytes@.len() == 64,
            b.bytes@.len() == 64,
            forall|j: int| 0 <= j < i ==> a.bytes@[j] == b.bytes@[j],
            bytes_lt(a.bytes@, b.bytes@) == bytes_lt(a.bytes@.skip(i as int), b.bytes@.skip(i as int)),
            bytes_lt(b.bytes@, a.bytes@) == bytes_lt(b.bytes@.skip(i as int), a.bytes@.skip(i as int)),
        decreases 64 - i,
    {
        let x = a.bytes[i];
        let y = b.bytes[i];
        let ghost sa = a.bytes@.skip(i as int);
        let ghost sb = b.bytes@.skip(i as int);
        assert(sa[0] == x && sb[0] == y);
        if x < y {
            proof { lemma_bytes_lt_asymmetric(sa, sb); }
            assert(a.bytes@[i as int] != b.bytes@[i as int]);
            return -1;
        }
        if x > y {
            proof { lemma_bytes_lt_asymmetric(sb, sa); }
            assert(a.bytes@[i as int] != b.bytes@[i as int]);
            return 1;
        }
        assert(sa.drop_first() =~= a.bytes@.skip(i + 1));
        assert(sb.drop_first() =~= b.bytes@.skip(i + 1));
        i = i + 1;
    }
    assert(a.bytes@ =~= b.bytes@);
    proof { lemma_bytes_lt_irreflexive(a.bytes@); }
    0
}

} // verus!
