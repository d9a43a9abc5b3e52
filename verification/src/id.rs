//! The identifier type and the two ways of making one.

use crate::outside::{
    is_random_version, random_v4_bytes, rng_block, rng_from_seed, rng_next_16, seeded_block,
};
use vstd::prelude::*;

verus! {

/// A UUID held as its 16 bytes.
#[derive(Clone, Copy, PartialEq, Eq, Hash, PartialOrd, Ord)]
pub struct Uuid(pub [u8; 16]);

/// Operators are named by UUIDs.
pub type OperatorId = Uuid;

impl View for Uuid {
    type V = Seq<u8>;

    open spec fn view(&self) -> Seq<u8> {
        self.0@
    }
}

/// The seed from which every [`IdGenerator::new`] starts.
pub open spec fn fixed_seed() -> Seq<usize> {
    seq![1913usize, 3, 26]
}

/// The identifier that a generator made from `seed` gives at its draw
/// number `index` (counted from 0), on a machine whose words have as many
/// bits as this one's.
pub open spec fn seeded_id(seed: Seq<usize>, index: nat) -> Seq<u8> {
    seeded_block(usize::BITS as nat, seed, index)
}

/// A seeded generator together with how many blocks have been drawn from it.
struct Draws {
    rng: rand::StdRng,
    count: Ghost<nat>,
}

/// Draws the next block of 16 bytes and counts it.
fn draw(draws: &mut Draws) -> (bytes: [u8; 16])
    ensures
        bytes@ == rng_block(old(draws).rng, 0),
        forall|k: nat| #[trigger] rng_block(final(draws).rng, k) == rng_block(old(draws).rng, k + 1),
        final(draws).count@ == old(draws).count@ + 1,
    no_unwind
{
    let bytes = rng_next_16(&mut draws.rng);
    draws.count = Ghost(draws.count@ + 1);
    bytes
}

/// A generator of identifiers that every thread and process starts from the
/// same seed, so that drawing identifiers in the same order gives the same ones.
///
/// Its position in the sequence is the seed it was made from and the number
/// of identifiers drawn from it since: the blocks it gives from now on are
/// those of its seed's sequence from that number on.
pub struct IdGenerator {
    draws: Draws,
    seed: Ghost<Seq<usize>>,
}

impl IdGenerator {
    #[verifier::type_invariant]
    spec fn follows_seed(self) -> bool {
        forall|k: nat|
            #[trigger] rng_block(self.draws.rng, k) == seeded_block(
                usize::BITS as nat,
                self.seed@,
                self.draws.count@ + k,
            )
    }

    /// The seed that the generator was made from.
    pub closed spec fn seed(&self) -> Seq<usize> {
        self.seed@
    }

    /// How many identifiers have been drawn from the generator.
    pub closed spec fn drawn(&self) -> nat {
        self.draws.count@
    }

    /// The identifier that the generator gives next.
    pub open spec fn next_id(&self) -> Seq<u8> {
        seeded_id(self.seed(), self.drawn())
    }

    /// A generator seeded with the fixed seed `[1913, 3, 26]`, from which
    /// nothing has been drawn yet.
    pub fn new() -> (g: IdGenerator)
        ensures
            g.seed() == fixed_seed(),
            g.seed() == seq![1913usize, 3, 26],
            g.drawn() == 0,
    {
        let seed: [usize; 3] = [1913, 3, 26];
        assert(seed@ =~= fixed_seed());
        let rng = rng_from_seed(seed.as_slice());
        assert forall|k: nat|
            #[trigger] rng_block(rng, k) == seeded_block(usize::BITS as nat, seed@, 0 + k) by {}
        IdGenerator { draws: Draws { rng, count: Ghost(0) }, seed: Ghost(seed@) }
    }
}

/// Produces the next identifier of `generator`: the one at its current draw
/// in the sequence of its seed. The generator moves on by one draw.
pub fn generate_id(generator: &mut IdGenerator) -> (id: Uuid)
    ensures
        id@ == old(generator).next_id(),
        id@ == seeded_block(usize::BITS as nat, old(generator).seed(), old(generator).drawn()),
        final(generator).seed() == old(generator).seed(),
        final(generator).drawn() == old(generator).drawn() + 1,
{
    proof {
        use_type_invariant(&*generator);
    }
    let bytes = draw(&mut generator.draws);
    proof {
        assert(rng_block(old(generator).draws.rng, 0) == seeded_block(
            usize::BITS as nat,
            old(generator).seed@,
            old(generator).draws.count@ + 0,
        ));
    }
    Uuid(bytes)
}

/// Determinism: two generators made from one seed, from which equally many
/// identifiers have been drawn, give the same next identifier, whatever
/// thread or process holds them: the whole block of 16 bytes at that draw
/// of the seed's sequence.
pub proof fn lemma_generators_agree(a: IdGenerator, b: IdGenerator)
    requires
        a.seed() == b.seed(),
        a.drawn() == b.drawn(),
    ensures
        a.next_id() == b.next_id(),
        a.next_id() == seeded_block(usize::BITS as nat, b.seed(), b.drawn()),
{
}

/// Every generator made by [`IdGenerator::new`] (seed `[1913, 3, 26]`) gives,
/// at its draw number `n`, the whole `n`-th block of 16 bytes of `rand`'s
/// `StdRng` made from that seed.
pub proof fn lemma_fresh_generators_share_sequence(g: IdGenerator)
    requires
        g.seed() == seq![1913usize, 3, 26],
    ensures
        g.next_id() == seeded_id(fixed_seed(), g.drawn()),
        g.next_id() == seeded_block(usize::BITS as nat, seq![1913usize, 3, 26], g.drawn()),
{
}

impl Uuid {
    /// A random (version 4) UUID.
    pub fn new_v4() -> (id: Uuid)
        ensures
            is_random_version(id@),
    {
        Uuid(random_v4_bytes())
    }

    /// The next identifier of `generator` (see [`generate_id`]).
    pub fn new_deterministic(generator: &mut IdGenerator) -> (id: Uuid)
        ensures
            id@ == old(generator).next_id(),
            id@ == seeded_block(usize::BITS as nat, old(generator).seed(), old(generator).drawn()),
            final(generator).seed() == old(generator).seed(),
            final(generator).drawn() == old(generator).drawn() + 1,
    {
        generate_id(generator)
    }

    /// The nil UUID: all 16 bytes zero.
    pub fn nil() -> (id: Uuid)
        ensures
            id@ == Seq::new(16, |i: int| 0u8),
    {
        let id = Uuid([0u8; 16]);
        assert(id@ =~= Seq::new(16, |i: int| 0u8));
        id
    }
}

} // verus!
