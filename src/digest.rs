//! Content identity: SHA-256 over a stream of chunks, rendered as lower-case hex.

use vstd::prelude::*;

use sha2::Digest;

verus! {

/// A running SHA-256 computation from the sha2 crate, whose type Verus cannot declare.
#[verifier::external_body]
pub struct Sha256State {
    inner: sha2::Sha256,
}

/// The SHA-256 digest of a byte sequence.
pub uninterp spec fn sha256_of(data: Seq<u8>) -> Seq<u8>;

/// The bytes that a SHA-256 hasher has been fed since it was created.
pub uninterp spec fn fed_bytes(h: Sha256State) -> Seq<u8>;

/// Relies on sha2's `Digest::new`: a fresh hasher has absorbed nothing.
#[verifier::external_body]
fn sha256_start() -> (h: Sha256State)
    ensures
        fed_bytes(h) == Seq::<u8>::empty(),
{
    Sha256State { inner: sha2::Sha256::new() }
}

/// Relies on sha2's `Digest::update`: the chunk is appended to the absorbed input.
#[verifier::external_body]
fn sha256_feed(h: &mut Sha256State, chunk: &[u8])
    ensures
        fed_bytes(*final(h)) == fed_bytes(*old(h)) + chunk@,
{
    h.inner.update(chunk)
}

/// Relies on sha2's `Digest::finalize`: the 32-byte digest of all absorbed input.
#[verifier::external_body]
fn sha256_finish(h: Sha256State) -> (r: Vec<u8>)
    ensures
        r@ == sha256_of(fed_bytes(h)),
        r@.len() == 32,
{
    h.inner.finalize().to_vec()
}

/// The lower-case hexadecimal digit for a value below sixteen.
pub open spec fn hex_digit(n: int) -> char {
    seq!['0', '1', '2', '3', '4', '5', '6', '7', '8', '9', 'a', 'b', 'c', 'd', 'e', 'f'][n]
}

/// Lower-case hexadecimal rendering: two digits per byte, high nibble first.
pub open spec fn hex_lower(bytes: Seq<u8>) -> Seq<char>
    decreases bytes.len(),
{
    if bytes.len() == 0 {
        Seq::empty()
    } else {
        let b = bytes.last() as int;
        hex_lower(bytes.drop_last()) + seq![hex_digit(b / 16), hex_digit(b % 16)]
    }
}

/// The identity of a content: its SHA-256 digest in lower-case hex.
pub open spec fn content_id(data: Seq<u8>) -> Seq<char> {
    hex_lower(sha256_of(data))
}

/// Relies on hex::encode: lower-case digits, two per byte, high nibble first.
#[verifier::external_body]
fn hex_encode(bytes: &[u8]) -> (r: String)
    ensures
        r@ == hex_lower(bytes@),
{
    hex::encode(bytes)
}

/// Computes the content identity of a byte stream fed to it chunk by chunk,
/// without holding the whole stream in memory.
pub struct ContentHasher {
    state: Sha256State,
}

impl ContentHasher {
    /// The bytes fed so far.
    pub closed spec fn fed(&self) -> Seq<u8> {
        fed_bytes(self.state)
    }

    pub fn new() -> (h: ContentHasher)
        ensures
            h.fed() == Seq::<u8>::empty(),
    {
        ContentHasher { state: sha256_start() }
    }

    pub fn update(&mut self, chunk: &[u8])
        ensures
            final(self).fed() == old(self).fed() + chunk@,
    {
        sha256_feed(&mut self.state, chunk);
    }

    /// The content identity of everything fed.
    pub fn finish(self) -> (id: String)
        ensures
            id@ == content_id(self.fed()),
            id@.len() == 64,
    {
        let digest = sha256_finish(self.state);
        proof {
            lemma_hex_lower_len(digest@);
        }
        hex_encode(digest.as_slice())
    }
}

/// Computes the content identity of bytes held in memory.
pub fn content_digest(data: &[u8]) -> (id: String)
    ensures
        id@ == content_id(data@),
{
    let mut h = ContentHasher::new();
    h.update(data);
    assert(h.fed() =~= data@);
    h.finish()
}

/// Hex rendering doubles the length.
pub proof fn lemma_hex_lower_len(bytes: Seq<u8>)
    ensures
        hex_lower(bytes).len() == 2 * bytes.len(),
    decreases bytes.len(),
{
    if bytes.len() > 0 {
        lemma_hex_lower_len(bytes.drop_last());
    }
}

} // verus!
