//! The content hasher: a streaming SHA-256 digest over byte chunks, so a
//! file can be fingerprinted in bounded memory. The digest of a byte
//! stream depends on the bytes alone; two byte-identical files fingerprint
//! identically wherever they live.

use vstd::prelude::*;
use crate::bytes::hex_of;

verus! {

/// The SHA-256 digest, 32 bytes, of a byte sequence. Named, not spelled
/// out: the contracts below say that the sha2 crate's calls compute it,
/// and that it depends on the bytes alone.
pub uninterp spec fn sha256_of(bytes: Seq<u8>) -> Seq<u8>;

/// Holds the sha2 crate's hasher state, opaque to the verifier. The
/// state type itself cannot be declared here: it is a stack of generic
/// wrappers whose bounds name the sha2 crate's traits.
#[verifier::external_body]
struct HasherState {
    inner: sha2::Sha256,
}

/// Relies on sha2::Digest::new for Sha256: yields a fresh hasher state.
/// The state is opaque; what it has absorbed is tracked beside it.
#[verifier::external_body]
fn sha256_new() -> HasherState {
    HasherState { inner: <sha2::Sha256 as sha2::Digest>::new() }
}

/// Relies on sha2::Digest::update: feeds one chunk to the hasher state.
/// The state is opaque; what it has absorbed is tracked beside it.
#[verifier::external_body]
fn sha256_update(h: &mut HasherState, chunk: &[u8]) {
    sha2::Digest::update(&mut h.inner, chunk);
}

/// A streaming content hasher: absorbs byte chunks and yields the
/// SHA-256 digest of everything absorbed, in order.
pub struct StreamingHasher {
    inner: HasherState,
    absorbed: Ghost<Seq<u8>>,
}

impl StreamingHasher {
    /// The bytes absorbed so far.
    pub closed spec fn absorbed(self) -> Seq<u8> {
        self.absorbed@
    }

    /// A fresh hasher has absorbed nothing.
    pub fn new() -> (r: StreamingHasher)
        ensures
            r.absorbed() == Seq::<u8>::empty(),
    {
        StreamingHasher { inner: sha256_new(), absorbed: Ghost(Seq::empty()) }
    }

    /// Absorbing a chunk appends it to the absorbed stream.
    pub fn update(&mut self, chunk: &[u8])
        ensures
            final(self).absorbed() == old(self).absorbed() + chunk@,
    {
        sha256_update(&mut self.inner, chunk);
        proof {
            self.absorbed@ = self.absorbed@ + chunk@;
        }
    }

    /// Relies on sha2::Digest::finalize: the digest of the absorbed
    /// stream, 32 bytes.
    #[verifier::external_body]
    pub fn finalize(self) -> (r: Vec<u8>)
        ensures
            r@ == sha256_of(self.absorbed()),
            r@.len() == 32,
    {
        let out = sha2::Digest::finalize(self.inner.inner);
        out.as_slice().to_vec()
    }
}

/// Hashes a sequence of chunks: the digest of their concatenation, so
/// chunk boundaries cannot influence the fingerprint.
pub fn hash_chunks(chunks: &Vec<Vec<u8>>) -> (r: Vec<u8>)
    ensures
        r@ == sha256_of(flatten_all(chunks.deep_view())),
        r@.len() == 32,
{
    let mut h = StreamingHasher::new();
    let mut i: usize = 0;
    proof {
        assert(flatten_all(chunks.deep_view().subrange(0, 0)) =~= Seq::<u8>::empty());
    }
    while i < chunks.len()
        invariant
            i <= chunks@.len(),
            chunks@.len() == chunks.deep_view().len(),
            h.absorbed() == flatten_all(chunks.deep_view().subrange(0, i as int)),
        decreases chunks@.len() - i,
    {
        h.update(chunks[i].as_slice());
        proof {
            assert(chunks.deep_view()[i as int] =~~= chunks@[i as int]@);
            lemma_flatten_all_snoc(chunks.deep_view(), i as int);
        }
        i = i + 1;
    }
    proof {
        assert(chunks.deep_view().subrange(0, chunks.deep_view().len() as int) =~= (
        chunks.deep_view()));
    }
    h.finalize()
}

/// The concatenation of a sequence of byte chunks.
pub open spec fn flatten_all(chunks: Seq<Seq<u8>>) -> Seq<u8>
    decreases chunks.len(),
{
    if chunks.len() == 0 {
        Seq::empty()
    } else {
        flatten_all(chunks.drop_last()) + chunks.last()
    }
}

/// Concatenating one more chunk appends its bytes.
proof fn lemma_flatten_all_snoc(chunks: Seq<Seq<u8>>, i: int)
    requires
        0 <= i < chunks.len(),
    ensures
        flatten_all(chunks.subrange(0, i + 1)) =~= flatten_all(chunks.subrange(0, i)) + chunks[i],
{
    assert(chunks.subrange(0, i + 1).drop_last() =~= chunks.subrange(0, i));
    assert(chunks.subrange(0, i + 1).last() == chunks[i]);
}

/// Hashes one whole byte string: the digest of exactly those bytes.
pub fn hash_bytes(data: &Vec<u8>) -> (r: Vec<u8>)
    ensures
        r@ == sha256_of(data@),
        r@.len() == 32,
{
    let mut h = StreamingHasher::new();
    h.update(data.as_slice());
    h.finalize()
}

/// The hexadecimal fingerprint of a byte stream's digest.
pub open spec fn sha256_hex_of(bytes: Seq<u8>) -> Seq<u8> {
    hex_of(sha256_of(bytes))
}

/// Hash determinism: the digest of a byte stream is a function of the
/// bytes alone — equal content gives equal digests, however it is
/// chunked, wherever the file lives.
pub proof fn lemma_hash_deterministic(a: Seq<Seq<u8>>, b: Seq<Seq<u8>>)
    requires
        flatten_all(a) == flatten_all(b),
    ensures
        sha256_of(flatten_all(a)) == sha256_of(flatten_all(b)),
        sha256_hex_of(flatten_all(a)) == sha256_hex_of(flatten_all(b)),
{
}

} // verus!
