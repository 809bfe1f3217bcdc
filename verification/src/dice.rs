//! Chance: one random draw decides one trial.
//!
//! A source of chance keeps a record of the draws taken from it, so that a
//! contract can say which draws a function took and what each decided. A
//! draw is 32 random bits. Its upper 24 bits place it at one of 2^24
//! equally likely positions in `[0, 1)`; a trial is won when that position
//! lies below the trial's likelihood. Likelihoods are counted in hundred
//! thousandths, which is what an operative's likelihood in hundredths times an
//! efficiency in thousandths comes to.

use rand::rngs::{OsRng, StdRng};
use rand::{Rng, SeedableRng};
use vstd::prelude::*;

verus! {

/// The seedable generator of the `rand` crate, carried through as an opaque value.
#[verifier::external_type_specification]
#[verifier::external_body]
pub struct ExStdRng(StdRng);

/// The error with which the `rand` crate reports that a source of random
/// bytes has failed, carried through as an opaque value.
#[verifier::external_type_specification]
#[verifier::external_body]
pub struct ExRandError(rand::Error);

/// A likelihood of exactly one, in hundred thousandths.
pub const CERTAIN: u128 = 100_000;

/// The number of positions at which a draw can fall.
pub const POSITIONS: u128 = 0x100_0000;

/// The likelihood, in hundred thousandths, that `count` operatives succeed,
/// each with a likelihood of `per_cent` hundredths at an efficiency of one.
pub open spec fn threshold(count: int, per_cent: int, efficiency: int) -> int {
    count * per_cent * efficiency
}

/// Where a draw falls: its upper 24 bits.
pub open spec fn position(draw: u32) -> int {
    draw as int / 256
}

/// Whether a draw wins a trial of the given likelihood: its position, as a
/// fraction of all positions, lies below the likelihood.
pub open spec fn wins(threshold: int, draw: u32) -> bool {
    position(draw) * (CERTAIN as int) < threshold * (POSITIONS as int)
}

/// Whether a trial of the given likelihood can end this way for some draw:
/// only a likelihood above zero can win, and a likelihood of one or more
/// cannot lose.
pub open spec fn may_be(threshold: int, outcome: bool) -> bool {
    &&& outcome ==> threshold > 0
    &&& threshold >= CERTAIN ==> outcome
}

/// The number of winning draws among `draws`.
pub open spec fn wins_among(threshold: int, draws: Seq<u32>) -> nat
    decreases draws.len(),
{
    if draws.len() == 0 {
        0
    } else {
        wins_among(threshold, draws.drop_last()) + if wins(threshold, draws.last()) {
            1nat
        } else {
            0nat
        }
    }
}

/// Whether `trials` independent trials of the given likelihood can bring
/// this number of wins.
pub open spec fn may_win(threshold: int, trials: nat, won: nat) -> bool {
    &&& won <= trials
    &&& won > 0 ==> threshold > 0
    &&& threshold >= CERTAIN ==> won == trials
}

/// Whatever the draw, the outcome of a trial is one that `may_be` admits.
pub proof fn lemma_every_draw_may_be(threshold: int, draw: u32)
    ensures
        may_be(threshold, wins(threshold, draw)),
{
    assert(0 <= position(draw) < POSITIONS);
    if threshold <= 0 {
        assert(threshold * (POSITIONS as int) <= 0) by (nonlinear_arith)
            requires
                threshold <= 0,
        ;
    }
    if threshold >= CERTAIN {
        assert(threshold * (POSITIONS as int) >= 100_000 * (POSITIONS as int))
            by (nonlinear_arith)
            requires
                threshold >= 100_000,
        ;
    }
}

/// Every outcome that `may_be` admits is the outcome of some draw: the
/// lowest draw wins whenever winning is possible, the highest loses whenever
/// losing is.
pub proof fn lemma_may_be_is_drawn(threshold: int, outcome: bool) -> (draw: u32)
    requires
        may_be(threshold, outcome),
    ensures
        wins(threshold, draw) == outcome,
{
    if outcome {
        assert(threshold * (POSITIONS as int) > 0) by (nonlinear_arith)
            requires
                threshold > 0,
        ;
        0u32
    } else {
        assert(position(u32::MAX) == POSITIONS - 1);
        assert(threshold * (POSITIONS as int) <= 99_999 * (POSITIONS as int))
            by (nonlinear_arith)
            requires
                threshold <= 99_999,
        ;
        u32::MAX
    }
}

/// The number of wins among any draws is one that `may_win` admits.
pub proof fn lemma_wins_among_may_win(threshold: int, draws: Seq<u32>)
    ensures
        may_win(threshold, draws.len(), wins_among(threshold, draws)),
    decreases draws.len(),
{
    if draws.len() > 0 {
        lemma_wins_among_may_win(threshold, draws.drop_last());
        lemma_every_draw_may_be(threshold, draws.last());
    }
}

/// Decides one trial from one draw.
pub fn trial(count: usize, per_cent: usize, efficiency: usize, draw: u32) -> (won: bool)
    ensures
        won == wins(threshold(count as int, per_cent as int, efficiency as int), draw),
{
    proof {
        crate::fixed::lemma_product_fits(count as int, per_cent as int);
    }
    let place: u128 = (draw / 256) as u128;
    let strength: u128 = count as u128 * per_cent as u128;
    match strength.checked_mul(efficiency as u128) {
        Some(likelihood) => {
            if likelihood >= CERTAIN {
                proof {
                    lemma_every_draw_may_be(likelihood as int, draw);
                }
                true
            } else {
                place * CERTAIN < likelihood * POSITIONS
            }
        },
        None => {
            proof {
                lemma_every_draw_may_be(count * per_cent * efficiency, draw);
            }
            true
        },
    }
}

/// What is known of a source of chance: the seed that its stream was made
/// from, where there was one, and every draw taken from it so far, in order.
pub ghost struct Stream {
    pub seed: Option<u64>,
    pub drawn: Seq<u32>,
}

impl Stream {
    /// A stream from which nothing has been drawn yet.
    pub open spec fn untouched(seed: Option<u64>) -> Stream {
        Stream { seed, drawn: Seq::empty() }
    }

    /// Whether this is the `earlier` stream with `count` more draws taken.
    pub open spec fn extends(self, earlier: Stream, count: nat) -> bool {
        &&& self.seed == earlier.seed
        &&& self.drawn.len() == earlier.drawn.len() + count
        &&& self.drawn.take(earlier.drawn.len() as int) == earlier.drawn
    }

    /// The draws taken since the stream stood as `earlier`, in order.
    pub open spec fn since(self, earlier: Stream) -> Seq<u32> {
        self.drawn.skip(earlier.drawn.len() as int)
    }

    /// A stream extends itself by nothing.
    pub proof fn lemma_extends_nothing(self)
        ensures
            self.extends(self, 0),
            self.since(self) == Seq::<u32>::empty(),
    {
        assert(self.drawn.take(self.drawn.len() as int) =~= self.drawn);
        assert(self.since(self) =~= Seq::<u32>::empty());
    }

    /// Taking one more draw extends whatever the stream extended before
    /// by one more.
    pub proof fn lemma_extends_by_one(self, earlier: Stream, count: nat, draw: u32)
        requires
            self.extends(earlier, count),
        ensures
            (Stream { drawn: self.drawn.push(draw), ..self }).extends(earlier, count + 1),
            (Stream { drawn: self.drawn.push(draw), ..self }).since(earlier) == self.since(
                earlier,
            ).push(draw),
    {
        let longer = Stream { drawn: self.drawn.push(draw), ..self };
        assert(longer.drawn.take(earlier.drawn.len() as int) =~= self.drawn.take(
            earlier.drawn.len() as int,
        ));
        assert(longer.since(earlier) =~= self.since(earlier).push(draw));
    }

    /// Extending twice is extending once by both: the draws since the
    /// start are those of the first stretch, then those of the second.
    pub proof fn lemma_extends_twice(
        self,
        middle: Stream,
        earlier: Stream,
        first: nat,
        second: nat,
    )
        requires
            middle.extends(earlier, first),
            self.extends(middle, second),
        ensures
            self.extends(earlier, first + second),
            self.since(earlier) == middle.since(earlier) + self.since(middle),
            self.since(earlier).take(first as int) == middle.since(earlier),
            self.since(earlier).skip(first as int) == self.since(middle),
    {
        let n = earlier.drawn.len() as int;
        let m = middle.drawn.len() as int;
        assert(self.drawn.take(n) =~= self.drawn.take(m).take(n));
        assert(self.since(earlier) =~= middle.since(earlier) + self.since(middle)) by {
            assert forall|i: int| 0 <= i < first implies self.since(earlier)[i]
                == middle.since(earlier)[i] by {
                assert(self.drawn.take(m)[n + i] == middle.drawn[n + i]);
            }
        }
        assert(self.since(earlier).take(first as int) =~= middle.since(earlier));
        assert(self.since(earlier).skip(first as int) =~= self.since(middle));
    }
}

/// A source of random draws: a seedable pseudorandom stream.
///
/// Two sources made from the same seed give the same draws in the same
/// order. The contracts say nothing of the values drawn; they say which
/// draws were taken, and what each decided.
pub struct Dice {
    generator: StdRng,
    seed: Ghost<Option<u64>>,
    drawn: Ghost<Seq<u32>>,
}

impl View for Dice {
    type V = Stream;

    closed spec fn view(&self) -> Stream {
        Stream { seed: self.seed@, drawn: self.drawn@ }
    }
}

impl Dice {
    /// A source seeded by the operating system, or nothing where the
    /// system has no entropy to give. Nothing has been drawn from it.
    pub fn fresh() -> (r: Option<Dice>)
        ensures
            r matches Some(dice) ==> dice@ == Stream::untouched(None),
    {
        match fresh_generator() {
            Ok(generator) => Some(
                Dice { generator, seed: Ghost(None), drawn: Ghost(Seq::empty()) },
            ),
            Err(_) => None,
        }
    }

    /// A source whose whole stream is fixed by `seed`. Nothing has been
    /// drawn from it.
    pub fn seeded(seed: u64) -> (r: Dice)
        ensures
            r@ == Stream::untouched(Some(seed)),
    {
        Dice {
            generator: seeded_generator(seed),
            seed: Ghost(Some(seed)),
            drawn: Ghost(Seq::empty()),
        }
    }

    /// Takes the next 32 random bits of the stream.
    pub fn draw(&mut self) -> (draw: u32)
        ensures
            final(self)@.seed == old(self)@.seed,
            final(self)@.drawn == old(self)@.drawn.push(draw),
    {
        let draw: u32 = next_draw(&mut self.generator);
        self.drawn = Ghost(self.drawn@.push(draw));
        draw
    }
}

impl Clone for Dice {
    /// A second source that continues with the same stream as this one.
    fn clone(&self) -> (r: Dice)
        ensures
            r@ == self@,
    {
        Dice {
            generator: copied_generator(&self.generator),
            seed: Ghost(self.seed@),
            drawn: Ghost(self.drawn@),
        }
    }
}

/// A generator seeded with bytes from the operating system
/// (`SeedableRng::from_rng` on `StdRng`, reading from `OsRng`), or the error
/// with which the system refused them. Nothing is claimed of either.
#[verifier::external_body]
fn fresh_generator() -> (generator: Result<StdRng, rand::Error>) {
    StdRng::from_rng(OsRng)
}

/// A generator whose whole stream is fixed by `seed`
/// (`SeedableRng::seed_from_u64` on `StdRng`). Nothing is claimed of its state.
#[verifier::external_body]
fn seeded_generator(seed: u64) -> (generator: StdRng) {
    StdRng::seed_from_u64(seed)
}

/// A copy of a generator that continues with the same stream
/// (`Clone::clone` on `StdRng`). Nothing is claimed of its state.
#[verifier::external_body]
fn copied_generator(generator: &StdRng) -> (copy: StdRng) {
    generator.clone()
}

/// Takes the next 32 random bits from the generator (`Rng::gen::<u32>`).
/// Nothing is claimed of their value.
#[verifier::external_body]
fn next_draw(generator: &mut StdRng) -> (draw: u32) {
    generator.gen::<u32>()
}

} // verus!
