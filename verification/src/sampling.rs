//! Random points of the unit ball, by rejection.
//!
//! A random word of 32 bits gives one coordinate: its top 24 bits, read as a
//! number `k`, stand for `(k - 2^23) / 2^23`, one of `2^24` evenly spaced
//! values from -1 up to, but not including, 1.  Three words give a point of
//! the cube around the unit ball.  A point is kept when it lies in the ball
//! and thrown away otherwise, so that the points kept are spread evenly over
//! the ball.  The test is made on whole numbers and is exact.
//!
//! Rejection is simple and cheap for each draw, but the number of draws is
//! not bounded; about half of them are kept.  A direct method (a direction
//! drawn from a normal distribution, scaled by the cube root of a uniform
//! number) takes a fixed number of steps and costs more for each point.

use vstd::prelude::*;

verus! {

/// The lattice's unit: a coordinate `c` stands for the number `c / RADIUS`.
pub const RADIUS: i32 = 0x80_0000;

/// A point whose coordinates stand for whole multiples of `1 / RADIUS`.
#[derive(Clone, Copy, Debug, PartialEq, Eq, Structural)]
pub struct LatticePoint {
    pub x: i32,
    pub y: i32,
    pub z: i32,
}

/// The coordinate that a random word stands for.
pub open spec fn coordinate_of(word: u32) -> int {
    word as int / 256 - RADIUS
}

/// The point that three random words stand for.
pub open spec fn point_of(words: [u32; 3]) -> LatticePoint {
    LatticePoint {
        x: coordinate_of(words[0]) as i32,
        y: coordinate_of(words[1]) as i32,
        z: coordinate_of(words[2]) as i32,
    }
}

impl LatticePoint {
    /// Squared length, in units of `1 / RADIUS^2`.
    pub open spec fn norm2(self) -> int {
        self.x * self.x + self.y * self.y + self.z * self.z
    }

    /// Whether the point lies in the closed unit ball: its squared length is at most one.
    pub open spec fn in_unit_ball(self) -> bool {
        self.norm2() <= RADIUS * RADIUS
    }

    /// Whether every coordinate is one that a random word can stand for.
    pub open spec fn in_cube(self) -> bool {
        &&& -RADIUS <= self.x < RADIUS
        &&& -RADIUS <= self.y < RADIUS
        &&& -RADIUS <= self.z < RADIUS
    }

    /// The point of the cube that three random words stand for.
    pub fn from_words(words: [u32; 3]) -> (p: LatticePoint)
        ensures
            p == point_of(words),
            p.in_cube(),
    {
        LatticePoint {
            x: (words[0] / 256) as i32 - RADIUS,
            y: (words[1] / 256) as i32 - RADIUS,
            z: (words[2] / 256) as i32 - RADIUS,
        }
    }

    /// Squared length, in units of `1 / RADIUS^2`.
    pub fn len2(&self) -> (n: u64)
        ensures
            n == self.norm2(),
    {
        let (x, y, z) = (self.x as i128, self.y as i128, self.z as i128);
        proof {
            lemma_square_bounded(x as int);
            lemma_square_bounded(y as int);
            lemma_square_bounded(z as int);
        }
        (x * x + y * y + z * z) as u64
    }

    /// Whether the point lies in the closed unit ball.
    pub fn is_in_unit_ball(&self) -> (b: bool)
        ensures
            b == self.in_unit_ball(),
    {
        self.len2() <= 0x4000_0000_0000
    }
}

/// Every coordinate of the cube is drawn by the same number of words: the
/// 256 words from `256 * (c + RADIUS)` on stand for coordinate `c`, and no
/// others do.  So words that are spread evenly give points that are spread
/// evenly over the cube, and the points that are kept are spread evenly over
/// the ball.
pub proof fn lemma_words_spread_evenly(word: u32, c: int)
    requires
        -RADIUS <= c < RADIUS,
    ensures
        coordinate_of(word) == c <==> 256 * (c + RADIUS) <= word < 256 * (c + RADIUS) + 256,
        0 <= 256 * (c + RADIUS) && 256 * (c + RADIUS) + 255 <= u32::MAX,
{
}

proof fn lemma_square_bounded(c: int)
    requires
        -0x8000_0000 <= c <= 0x8000_0000,
    ensures
        0 <= c * c <= 0x4000_0000_0000_0000,
{
    assert(0 <= c * c <= 0x8000_0000 * 0x8000_0000) by (nonlinear_arith)
        requires
            -0x8000_0000 <= c <= 0x8000_0000,
    ;
}

/// The index of the first of `draws` whose point lies in the unit ball, if there is one.
pub open spec fn first_kept(draws: Seq<[u32; 3]>) -> Option<int>
    decreases draws.len(),
{
    if draws.len() == 0 {
        None
    } else if point_of(draws[0]).in_unit_ball() {
        Some(0)
    } else {
        match first_kept(draws.drop_first()) {
            Some(i) => Some(i + 1),
            None => None,
        }
    }
}

/// What `first_kept` finds: the draw it names is kept and every draw before
/// it is thrown away; it names none exactly when every draw is thrown away.
pub proof fn lemma_first_kept(draws: Seq<[u32; 3]>)
    ensures
        first_kept(draws) matches Some(i) ==> ({
            &&& 0 <= i < draws.len()
            &&& point_of(draws[i]).in_unit_ball()
            &&& forall|j: int| 0 <= j < i ==> !point_of(#[trigger] draws[j]).in_unit_ball()
        }),
        first_kept(draws) is None ==> forall|j: int|
            0 <= j < draws.len() ==> !point_of(#[trigger] draws[j]).in_unit_ball(),
    decreases draws.len(),
{
    if draws.len() > 0 && !point_of(draws[0]).in_unit_ball() {
        let rest = draws.drop_first();
        lemma_first_kept(rest);
        match first_kept(rest) {
            Some(i) => {
                assert forall|j: int| 0 <= j < i + 1 implies !point_of(
                    #[trigger] draws[j],
                ).in_unit_ball() by {
                    if j > 0 {
                        assert(draws[j] == rest[j - 1]);
                    }
                }
            },
            None => {
                assert forall|j: int| 0 <= j < draws.len() implies !point_of(
                    #[trigger] draws[j],
                ).in_unit_ball() by {
                    if j > 0 {
                        assert(draws[j] == rest[j - 1]);
                    }
                }
            },
        }
    }
}

/// Rejection over draws that were made already: the point of the first draw
/// that lies in the unit ball, or `None` when none does.
pub fn first_in_ball(draws: &Vec<[u32; 3]>) -> (r: Option<LatticePoint>)
    ensures
        r == (match first_kept(draws@) {
            Some(i) => Some(point_of(draws@[i])),
            None => None,
        }),
        r matches Some(p) ==> p.in_unit_ball() && p.in_cube(),
{
    let mut i: usize = 0;
    proof {
        assert(draws@.skip(0) == draws@);
        lemma_first_kept(draws@);
    }
    while i < draws.len()
        invariant
            i <= draws.len(),
            first_kept(draws@) == match first_kept(draws@.skip(i as int)) {
                Some(k) => Some(k + i),
                None => None,
            },
            first_kept(draws@.skip(i as int)) matches Some(k) ==> 0 <= k < draws.len() - i,
        decreases draws.len() - i,
    {
        proof {
            let rest = draws@.skip(i as int);
            assert(rest[0] == draws@[i as int]);
            assert(rest.drop_first() == draws@.skip(i + 1));
            lemma_first_kept(rest.drop_first());
        }
        let point = LatticePoint::from_words(draws[i]);
        if point.is_in_unit_ball() {
            return Some(point);
        }
        i += 1;
    }
    proof {
        assert(draws@.skip(i as int).len() == 0);
    }
    None
}

/// Draws one word from the thread's random generator, by `rand::random`.
/// Nothing is claimed of the word.  The generator is seeded from the
/// operating system at its first use in a thread, and panics if the system
/// gives it no seed.
#[verifier::external_body]
fn random_word() -> u32 {
    rand::random::<u32>()
}

/// A random point of the unit ball, by rejection: draws points of the cube
/// until one lies in the ball, `tries` times at most, and returns `None` when
/// every one of them was thrown away.  Each draw is kept with a probability
/// of about one half.
pub fn random_spherepoint(tries: usize) -> (r: Option<LatticePoint>)
    ensures
        r matches Some(p) ==> p.in_unit_ball() && p.in_cube(),
        tries == 0 ==> r is None,
{
    let mut left: usize = tries;
    while left > 0
        invariant
            left <= tries,
        decreases left,
    {
        let words = [random_word(), random_word(), random_word()];
        let point = LatticePoint::from_words(words);
        if point.is_in_unit_ball() {
            return Some(point);
        }
        left -= 1;
    }
    None
}

} // verus!
