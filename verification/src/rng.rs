//! Deterministic pseudo-random stream for training and terrain generation.
//!
//! The generator is a PCG-64 from the `rand_pcg` crate, driven through the
//! `rand` crate's `Rng` methods.  Every draw is a pure function of the
//! generator state, and the state itself is a pure function of the seed and
//! of the draws made so far.  A `TrainRng` therefore carries a ghost model
//! of that pair — the seed (or restored checkpoint bytes) and the history
//! of draw requests — and each drawn value is named over the model, which
//! is what makes whole training runs reproducible in contracts.

use vstd::prelude::*;
use rand::Rng;
use rand::RngCore;
use rand::SeedableRng;
use rand_pcg::Pcg64;

verus! {

#[verifier::external_type_specification]
#[verifier::external_body]
pub struct ExLcg128Xsl64(rand_pcg::Lcg128Xsl64);

/// One recorded draw request: an operation tag and its two arguments (zero
/// where the operation takes fewer).  Tag 0 is a `[low, high)` range draw,
/// tag 1 a biased boolean draw, tag 2 an eight-character alphanumeric draw,
/// and tag 3 a raw 32-bit draw.
pub type RngDraw = (int, int, int);

/// The value `gen_range(low..high)` returns in the state reached from
/// `seed` after `history`.
pub uninterp spec fn rng_range_val(
    seed: Seq<u8>,
    history: Seq<RngDraw>,
    low: u64,
    high: u64,
) -> u64;

/// The value `gen_ratio(numerator, denominator)` returns in the state
/// reached from `seed` after `history`.
pub uninterp spec fn rng_ratio_val(
    seed: Seq<u8>,
    history: Seq<RngDraw>,
    numerator: u32,
    denominator: u32,
) -> bool;

/// The eight alphanumeric characters drawn in the state reached from
/// `seed` after `history`.
pub uninterp spec fn rng_alnum8_val(seed: Seq<u8>, history: Seq<RngDraw>) -> Seq<char>;

/// The raw 32-bit word drawn in the state reached from `seed` after
/// `history`.
pub uninterp spec fn rng_u32_val(seed: Seq<u8>, history: Seq<RngDraw>) -> u32;

/// The checkpoint encoding of the state reached from `seed` after
/// `history`.
pub uninterp spec fn rng_state_bytes(seed: Seq<u8>, history: Seq<RngDraw>) -> Seq<u8>;

/// Whether checkpoint bytes parse back into a generator.
pub uninterp spec fn rng_parses(bytes: Seq<u8>) -> bool;

/// An ASCII alphanumeric character.
pub open spec fn is_alphanumeric_char(c: char) -> bool {
    ('a' <= c && c <= 'z') || ('A' <= c && c <= 'Z') || ('0' <= c && c <= '9')
}

/// The origin model of a generator seeded from 32 bytes.  The leading tag
/// keeps fresh seeds and restored checkpoints in disjoint model spaces: the
/// same bytes name different generator states depending on which
/// constructor consumed them, so the two must never share a model.
pub open spec fn seed_origin(seed: Seq<u8>) -> Seq<u8> {
    seq![0u8] + seed
}

/// The origin model of a generator restored from checkpoint bytes, tagged
/// apart from fresh seeds (see `seed_origin`).
pub open spec fn restored_origin(bytes: Seq<u8>) -> Seq<u8> {
    seq![1u8] + bytes
}

/// No fresh seed shares a model with a restored checkpoint, whatever bytes
/// each consumed: the two constructors tag their origins apart.
pub proof fn lemma_origins_disjoint(seed: Seq<u8>, bytes: Seq<u8>)
    ensures
        seed_origin(seed) != restored_origin(bytes),
{
    assert(seed_origin(seed)[0] == 0u8);
    assert(restored_origin(bytes)[0] == 1u8);
}

/// A seeded PCG-64 generator together with the ghost model of the state it
/// is in: its origin (a tagged 32-byte seed, or tagged checkpoint bytes it
/// was restored from — the tags keep the two spaces disjoint) and the draws
/// made since.
///
/// The fields are private so that only the constructors in this module can
/// pair a generator with its model; the drawing methods then name every
/// drawn value as a pure function of that model, which is what the trusted
/// contracts below assert of the underlying generator.
pub struct TrainRng {
    inner: Pcg64,
    origin: Ghost<Seq<u8>>,
    history: Ghost<Seq<RngDraw>>,
}

/// Relies on `rand_pcg::Pcg64::from_seed` (it cannot fail or panic).
#[verifier::external_body]
fn pcg_from_seed(seed: &[u8; 32]) -> Pcg64 {
    Pcg64::from_seed(*seed)
}

/// Relies on `Clone` for `rand_pcg::Pcg64`: the copy continues the same
/// stream as the original.
#[verifier::external_body]
fn pcg_clone(p: &Pcg64) -> Pcg64 {
    p.clone()
}

/// Relies on `serde_json::from_slice` over PCG-64's serde support: whether
/// checkpoint bytes parse into a generator is a pure function of the bytes.
#[verifier::external_body]
fn pcg_parse(bytes: &[u8]) -> (r: Option<Pcg64>)
    ensures
        r.is_some() == rng_parses(bytes@),
{
    serde_json::from_slice::<Pcg64>(bytes).ok()
}

impl TrainRng {
    /// Where this generator came from: a 32-byte seed or restored
    /// checkpoint bytes, each under its own tag (`seed_origin`,
    /// `restored_origin`).
    pub closed spec fn origin(&self) -> Seq<u8> {
        self.origin@
    }

    /// The draw requests made since the generator was created.
    pub closed spec fn history(&self) -> Seq<RngDraw> {
        self.history@
    }

    /// The full abstract state: origin and history together.
    pub open spec fn model(&self) -> (Seq<u8>, Seq<RngDraw>) {
        (self.origin(), self.history())
    }

    /// A generator seeded from 32 bytes.
    pub fn from_seed(seed: [u8; 32]) -> (r: TrainRng)
        ensures
            r.origin() == seed_origin(seed@),
            r.history() == Seq::<RngDraw>::empty(),
    {
        TrainRng {
            inner: pcg_from_seed(&seed),
            origin: Ghost(seed_origin(seed@)),
            history: Ghost(Seq::empty()),
        }
    }

    /// A copy of this generator: it continues the very same stream.
    pub fn duplicate(&self) -> (r: TrainRng)
        ensures
            r.model() == self.model(),
    {
        TrainRng {
            inner: pcg_clone(&self.inner),
            origin: Ghost(self.origin@),
            history: Ghost(self.history@),
        }
    }

    /// Restore a generator from checkpoint bytes; `None` when the bytes do
    /// not parse.
    pub fn from_state_bytes(bytes: &[u8]) -> (r: Option<TrainRng>)
        ensures
            r.is_some() == rng_parses(bytes@),
            r matches Some(t) ==> t.origin() == restored_origin(bytes@) && t.history()
                == Seq::<RngDraw>::empty(),
    {
        match pcg_parse(bytes) {
            Some(inner) => Some(
                TrainRng {
                    inner,
                    origin: Ghost(restored_origin(bytes@)),
                    history: Ghost(Seq::empty()),
                },
            ),
            None => None,
        }
    }

    /// Relies on `rand::Rng::gen_range` over `low..high`: the draw lies in
    /// `[low, high)` and is a pure function of the generator state.  The
    /// range must not be empty, or the callee panics.
    #[verifier::external_body]
    pub fn gen_range_u64(&mut self, low: u64, high: u64) -> (r: u64)
        requires
            low < high,
        ensures
            r == rng_range_val(old(self).origin(), old(self).history(), low, high),
            final(self).origin() == old(self).origin(),
            final(self).history() == old(self).history().push(
                (0int, low as int, high as int),
            ),
            low <= r < high,
    {
        self.inner.gen_range(low..high)
    }

    /// Relies on `rand::Rng::gen_ratio`: true with probability
    /// `numerator / denominator`, a pure function of the generator state;
    /// always false for a zero numerator and always true when the numerator
    /// equals the denominator.  Panics when `denominator == 0` or
    /// `numerator > denominator`, so those inputs are excluded.
    #[verifier::external_body]
    pub fn gen_ratio(&mut self, numerator: u32, denominator: u32) -> (r: bool)
        requires
            1 <= denominator,
            numerator <= denominator,
        ensures
            r == rng_ratio_val(old(self).origin(), old(self).history(), numerator, denominator),
            final(self).origin() == old(self).origin(),
            final(self).history() == old(self).history().push(
                (1int, numerator as int, denominator as int),
            ),
            numerator == 0 ==> r == false,
            numerator == denominator ==> r == true,
    {
        self.inner.gen_ratio(numerator, denominator)
    }

    /// Relies on `rand::distributions::Alphanumeric`: every sample is an
    /// ASCII alphanumeric character, and the eight draws are a pure function
    /// of the generator state.
    #[verifier::external_body]
    pub fn gen_alphanumeric8(&mut self) -> (r: String)
        ensures
            r@ == rng_alnum8_val(old(self).origin(), old(self).history()),
            final(self).origin() == old(self).origin(),
            final(self).history() == old(self).history().push((2int, 0int, 0int)),
            r@.len() == 8,
            forall|i: int| 0 <= i < r@.len() ==> is_alphanumeric_char(r@[i]),
    {
        (&mut self.inner).sample_iter(rand::distributions::Alphanumeric).take(8).map(
            char::from,
        ).collect()
    }

    /// Relies on `rand_core::RngCore::next_u32` for PCG-64: the raw word is
    /// a pure function of the generator state.
    #[verifier::external_body]
    pub fn next_u32(&mut self) -> (r: u32)
        ensures
            r == rng_u32_val(old(self).origin(), old(self).history()),
            final(self).origin() == old(self).origin(),
            final(self).history() == old(self).history().push((3int, 0int, 0int)),
    {
        self.inner.next_u32()
    }

    /// Relies on `serde_json::to_vec` over PCG-64's serde support: encoding
    /// a generator (a plain record of two integers) never fails, is a pure
    /// function of its state, always parses back, and has the canonical
    /// shape of a state object — the two fields in declaration order,
    /// compact, with minimal decimal integers.
    #[verifier::external_body]
    pub fn state_bytes(&self) -> (r: Vec<u8>)
        ensures
            r@ == rng_state_bytes(self.origin(), self.history()),
            rng_parses(r@),
            crate::codec::is_state_json(r@),
    {
        serde_json::to_vec(&self.inner).unwrap()
    }
}

} // verus!
