use vstd::prelude::*;
use xxhash_rust::xxh3::Xxh3Default;

verus! {

#[verifier::external_type_specification]
#[verifier::external_body]
pub struct ExXxh3Default(Xxh3Default);

/// The bytes that an XXH3 streaming state has taken in since it was made or
/// last reset, in order.
pub uninterp spec fn xxh3_absorbed(h: Xxh3Default) -> Seq<u8>;

/// The 128-bit XXH3 digest, with the default seed and secret, that a
/// streaming state holding these bytes finalizes to.
pub uninterp spec fn xxh3_digest128(bytes: Seq<u8>) -> u128;

/// Relies on Xxh3Default::new: a new state has taken in nothing.
pub assume_specification[ Xxh3Default::new ]() -> (r: Xxh3Default)
    ensures
        xxh3_absorbed(r) == Seq::<u8>::empty(),
;

/// Relies on Xxh3Default::reset: the state returns to that of a new one.
pub assume_specification[ Xxh3Default::reset ](h: &mut Xxh3Default)
    ensures
        xxh3_absorbed(*final(h)) == Seq::<u8>::empty(),
;

/// Relies on Xxh3Default::update: the chunk is appended to the stream.
pub assume_specification[ Xxh3Default::update ](h: &mut Xxh3Default, input: &[u8])
    ensures
        xxh3_absorbed(*final(h)) == xxh3_absorbed(*old(h)) + input@,
;

/// Relies on Xxh3Default::digest128: the digest depends on the stream taken
/// in alone, and finalizing leaves the state as it was.
pub assume_specification[ Xxh3Default::digest128 ](h: &Xxh3Default) -> (r: u128)
    ensures
        r == xxh3_digest128(xxh3_absorbed(*h)),
;

/// The concatenation of a sequence of chunks, in order.
pub open spec fn concat_chunks(chunks: Seq<Seq<u8>>) -> Seq<u8>
    decreases chunks.len(),
{
    if chunks.len() == 0 {
        Seq::empty()
    } else {
        concat_chunks(chunks.drop_last()) + chunks.last()
    }
}

/// A reusable streaming hasher: its view is the byte stream taken in since
/// it was made or last reset.
pub struct Hasher {
    state: Xxh3Default,
}

impl View for Hasher {
    type V = Seq<u8>;

    closed spec fn view(&self) -> Seq<u8> {
        xxh3_absorbed(self.state)
    }
}

impl Hasher {
    pub fn new() -> (r: Hasher)
        ensures
            r@ == Seq::<u8>::empty(),
    {
        Hasher { state: Xxh3Default::new() }
    }

    /// Discards the stream taken in so far.
    pub fn reset(&mut self)
        ensures
            final(self)@ == Seq::<u8>::empty(),
    {
        self.state.reset();
    }

    /// Appends a chunk to the stream.
    pub fn update(&mut self, chunk: &[u8])
        ensures
            final(self)@ == old(self)@ + chunk@,
    {
        self.state.update(chunk);
    }

    /// The digest of the stream taken in so far; the stream is kept.
    pub fn digest(&self) -> (r: u128)
        ensures
            r == xxh3_digest128(self@),
    {
        self.state.digest128()
    }

    /// Resets, then takes in the chunks in order and returns the digest of
    /// their concatenation, whatever the hasher held before.
    pub fn digest_chunks(&mut self, chunks: &Vec<Vec<u8>>) -> (r: u128)
        ensures
            final(self)@ == concat_chunks(chunks.deep_view()),
            r == xxh3_digest128(concat_chunks(chunks.deep_view())),
    {
        self.reset();
        let mut i: usize = 0;
        while i < chunks.len()
            invariant
                i <= chunks.len(),
                self@ == concat_chunks(chunks.deep_view().take(i as int)),
            decreases chunks.len() - i,
        {
            self.update(chunks[i].as_slice());
            proof {
                let t = chunks.deep_view().take(i + 1);
                assert(t.drop_last() == chunks.deep_view().take(i as int));
                assert(t.last() == chunks[i as int]@);
            }
            i = i + 1;
        }
        proof {
            assert(chunks.deep_view().take(i as int) == chunks.deep_view());
        }
        self.digest()
    }
}

/// The digest of a byte stream handed over as chunks, by a new hasher.
pub fn digest_of_chunks(chunks: &Vec<Vec<u8>>) -> (r: u128)
    ensures
        r == xxh3_digest128(concat_chunks(chunks.deep_view())),
{
    let mut h = Hasher::new();
    h.digest_chunks(chunks)
}

/// Cutting a stream into chunks does not change its digest: the stream
/// taken in one chunk is the concatenation of the chunks.
pub proof fn lemma_chunking_independent(chunks: Seq<Seq<u8>>)
    ensures
        concat_chunks(seq![concat_chunks(chunks)]) == concat_chunks(chunks),
        xxh3_digest128(concat_chunks(seq![concat_chunks(chunks)])) == xxh3_digest128(
            concat_chunks(chunks),
        ),
{
    let one = seq![concat_chunks(chunks)];
    assert(one.drop_last() == Seq::<Seq<u8>>::empty());
    assert(concat_chunks(one.drop_last()) == Seq::<u8>::empty());
    assert(Seq::<u8>::empty() + concat_chunks(chunks) == concat_chunks(chunks));
}

} // verus!
