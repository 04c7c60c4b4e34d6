//! Bounce control of the path-tracing integrator.
//!
//! A light path starts at the eye and is cast into the scene at most
//! `bounces + 1` times.  Each cast either meets a surface or leaves the scene.
//! This module decides, cast by cast, which light terms the path gathers and
//! when it ends.  The caller casts the rays and does the arithmetic on
//! colours: it keeps the gathered light (black at first) and the mask, the
//! product of the attenuations of the surfaces met so far (white at first).

use vstd::prelude::*;
use crate::scene::Surface;
use crate::single::{is_positive, is_rounded, positive};

verus! {

/// The pattern of 1.0001, rounded to single precision: a reflected ray is
/// sent on along its reflection plus this much of the surface's normal, so
/// that it leaves the surface it was reflected by.
pub const NUDGE: u32 = 0x3f80_0347;

/// The pattern of 0.4, rounded to single precision: the ambient light of the sky.
pub const SKYBOX: u32 = 0x3ecc_cccd;

/// What a cast ray met.
#[derive(Clone, Copy, Debug, PartialEq, Eq, Structural)]
pub enum Cast {
    /// The ray met a surface, which is shaded with this material.
    Hit { surface: Surface },
    /// The ray left the scene.  `sun` is the cosine between the ray and the
    /// direction towards the sun, as a bit pattern.
    Miss { sun: u32 },
}

/// What the caller owes a cast.
#[derive(Clone, Copy, Debug, PartialEq, Eq, Structural)]
pub enum Shading {
    /// The ray met a surface whose material is entry `material` of the
    /// material table, or the default material.  With `emissive`, add the
    /// material's emitted colour times the mask times the cosine weight to
    /// the gathered light.  In every case multiply the mask by the material's
    /// diffuse colour and the cosine weight afterwards, and send the ray on
    /// along its reflection, nudged towards the surface's normal.
    Surface { material: Option<usize>, emissive: bool },
    /// The ray left the scene.  With `sun`, add the sun's light times the mask
    /// times the cosine between the ray and the direction towards the sun.
    /// In every case add the ambient light of the sky, white times the mask
    /// times `SKYBOX`, afterwards.
    Sky { sun: bool },
}

/// The state of one light path between two casts.
#[derive(Clone, Copy, Debug, PartialEq, Eq, Structural)]
pub struct Tracer {
    /// How many casts may follow the next one.
    pub bounces_left: usize,
    /// Whether a cast of this path has met a surface.
    pub any_hits: bool,
    /// Whether the path has ended.
    pub finished: bool,
}

impl Tracer {
    /// The state of a path before its first cast.
    pub open spec fn start(bounces: usize) -> Tracer {
        Tracer { bounces_left: bounces, any_hits: false, finished: false }
    }

    /// How many casts the path may still make.
    pub open spec fn casts_left(self) -> nat {
        if self.finished {
            0
        } else {
            (self.bounces_left + 1) as nat
        }
    }

    /// What a cast in this state calls for; meaningful while the path has not
    /// ended.  The sun lights a ray that leaves the scene only when the ray
    /// was reflected by a surface before and looks towards the sun.
    pub open spec fn shading(self, cast: Cast) -> Shading {
        match cast {
            Cast::Hit { surface } => Shading::Surface {
                material: surface.material,
                emissive: surface.emits_light,
            },
            Cast::Miss { sun } => Shading::Sky { sun: self.any_hits && is_positive(sun) },
        }
    }

    /// This state, with the memory of a hit where `hit` holds.
    pub open spec fn seen(self, hit: bool) -> Tracer {
        Tracer { any_hits: self.any_hits || hit, ..self }
    }

    /// The state after a cast.  A miss ends the path; so does a hit that uses
    /// up the last cast.  An ended path stays as it is.
    pub open spec fn after(self, cast: Cast) -> Tracer {
        if self.finished {
            self
        } else {
            match cast {
                Cast::Hit { .. } => Tracer {
                    bounces_left: if self.bounces_left == 0 {
                        0
                    } else {
                        (self.bounces_left - 1) as usize
                    },
                    any_hits: true,
                    finished: self.bounces_left == 0,
                },
                Cast::Miss { .. } => Tracer { finished: true, ..self },
            }
        }
    }

    /// The shadings that a path gathers from this state on when its casts meet
    /// `casts`, in order.  Casts beyond the end of the path are not made.
    pub open spec fn run(self, casts: Seq<Cast>) -> Seq<Shading>
        decreases casts.len(),
    {
        if self.finished || casts.len() == 0 {
            Seq::empty()
        } else {
            seq![self.shading(casts[0])] + self.after(casts[0]).run(casts.drop_first())
        }
    }

    /// Starts a path that may be reflected `bounces` times.
    pub fn new(bounces: usize) -> (t: Tracer)
        ensures
            t == Tracer::start(bounces),
    {
        Tracer { bounces_left: bounces, any_hits: false, finished: false }
    }

    /// Whether another ray is to be cast.
    pub fn is_active(&self) -> (b: bool)
        ensures
            b == !self.finished,
            b == (self.casts_left() > 0),
    {
        !self.finished
    }

    /// Takes what the cast ray met and says what it calls for.  Returns `None`
    /// and changes nothing when the path has ended already.
    pub fn step(&mut self, cast: Cast) -> (s: Option<Shading>)
        ensures
            *final(self) == old(self).after(cast),
            s == (if old(self).finished {
                None
            } else {
                Some(old(self).shading(cast))
            }),
            !old(self).finished ==> final(self).casts_left() < old(self).casts_left(),
    {
        if self.finished {
            return None;
        }
        match cast {
            Cast::Hit { surface } => {
                self.any_hits = true;
                if self.bounces_left == 0 {
                    self.finished = true;
                } else {
                    self.bounces_left = self.bounces_left - 1;
                }
                Some(Shading::Surface { material: surface.material, emissive: surface.emits_light })
            },
            Cast::Miss { sun } => {
                let lit = self.any_hits && positive(sun);
                self.finished = true;
                Some(Shading::Sky { sun: lit })
            },
        }
    }
}

/// The shadings of a whole path that may be reflected `bounces` times, given
/// what its casts meet, in order.  The path ends with its first miss, or with
/// the hit of cast `bounces + 1`; what `casts` holds beyond that is not read.
pub fn raytrace(bounces: usize, casts: &Vec<Cast>) -> (shadings: Vec<Shading>)
    ensures
        shadings@ == Tracer::start(bounces).run(casts@),
{
    let mut tracer = Tracer::new(bounces);
    let mut shadings: Vec<Shading> = Vec::new();
    let mut i: usize = 0;
    proof {
        assert(casts@.skip(0) == casts@);
        assert(Seq::<Shading>::empty() + tracer.run(casts@) == tracer.run(casts@));
    }
    while i < casts.len() && tracer.is_active()
        invariant
            i <= casts.len(),
            shadings@ + tracer.run(casts@.skip(i as int)) == Tracer::start(bounces).run(casts@),
        decreases casts.len() - i,
    {
        proof {
            let rest = casts@.skip(i as int);
            assert(rest[0] == casts@[i as int]);
            assert(rest.drop_first() == casts@.skip(i + 1));
        }
        let ghost before = shadings@;
        let ghost state = tracer;
        match tracer.step(casts[i]) {
            Some(shading) => {
                shadings.push(shading);
            },
            None => {},
        }
        proof {
            let tail = tracer.run(casts@.skip(i + 1));
            assert(shadings@ + tail == before + (seq![state.shading(casts@[i as int])] + tail));
        }
        i += 1;
    }
    proof {
        assert(tracer.run(casts@.skip(i as int)) == Seq::<Shading>::empty());
        assert(shadings@ + Seq::<Shading>::empty() == shadings@);
    }
    shadings
}

/// The constants are the decimal numbers that they are named for, rounded
/// to single precision: 1.0001 and 0.4.
pub proof fn lemma_constants()
    ensures
        is_rounded(NUDGE, 10_001, 10_000),
        is_rounded(SKYBOX, 4, 10),
{
    vstd::arithmetic::power2::lemma2_to64();
    assert(crate::single::scale(NUDGE) == 23);
    assert(crate::single::significand(NUDGE) == 8_389_447);
    assert(crate::single::scale(SKYBOX) == 25);
    assert(crate::single::significand(SKYBOX) == 13_421_773);
}

/// A path is cast at most `bounces + 1` times, and never more often than
/// there are casts to read.
pub proof fn lemma_run_bounded(tracer: Tracer, casts: Seq<Cast>)
    ensures
        tracer.run(casts).len() <= tracer.casts_left(),
        tracer.run(casts).len() <= casts.len(),
    decreases casts.len(),
{
    if !tracer.finished && casts.len() > 0 {
        lemma_run_bounded(tracer.after(casts[0]), casts.drop_first());
    }
}

/// A path ends with its first miss: every shading but the last is a surface's.
pub proof fn lemma_sky_is_last(tracer: Tracer, casts: Seq<Cast>, i: int)
    requires
        0 <= i < tracer.run(casts).len(),
        tracer.run(casts)[i] is Sky,
    ensures
        i == tracer.run(casts).len() - 1,
    decreases casts.len(),
{
    if i > 0 {
        lemma_sky_is_last(tracer.after(casts[0]), casts.drop_first(), i - 1);
    } else {
        assert(tracer.after(casts[0]).finished);
        assert(tracer.after(casts[0]).run(casts.drop_first()) == Seq::<Shading>::empty());
    }
}

/// Shading `i` of a path answers cast `i`, and every cast before it was a
/// hit: so a hit gives the shading of its surface, emissive exactly when the
/// material emits light, and a miss gives the sky's, with the sun's light
/// exactly when an earlier cast of the path met a surface and the ray looks
/// towards the sun.
pub proof fn lemma_run_shading(tracer: Tracer, casts: Seq<Cast>, i: int)
    requires
        0 <= i < tracer.run(casts).len(),
    ensures
        i < casts.len(),
        tracer.run(casts)[i] == tracer.seen(i > 0).shading(casts[i]),
        forall|j: int| 0 <= j < i ==> #[trigger] casts[j] is Hit,
    decreases casts.len(),
{
    if i > 0 {
        let next = tracer.after(casts[0]);
        let rest = casts.drop_first();
        lemma_run_shading(next, rest, i - 1);
        assert(rest[i - 1] == casts[i]);
        assert(casts[0] is Hit);
        assert forall|j: int| 0 <= j < i implies #[trigger] casts[j] is Hit by {
            if j > 0 {
                assert(rest[j - 1] == casts[j]);
            }
        }
    }
}

/// With no bounce allowed, a ray that meets a surface gathers that surface's
/// own light and nothing else: the path is one shading long, the surface's.
pub proof fn lemma_no_bounce_hit(casts: Seq<Cast>)
    requires
        casts.len() > 0,
        casts[0] is Hit,
    ensures
        Tracer::start(0).run(casts) == seq![Tracer::start(0).shading(casts[0])],
        Tracer::start(0).run(casts)[0] is Surface,
{
    let next = Tracer::start(0).after(casts[0]);
    assert(next.run(casts.drop_first()) == Seq::<Shading>::empty());
}

/// A ray that meets nothing gathers the light of the sky alone, without the
/// sun's, however many bounces are allowed.
pub proof fn lemma_first_miss(bounces: usize, casts: Seq<Cast>)
    requires
        casts.len() > 0,
        casts[0] is Miss,
    ensures
        Tracer::start(bounces).run(casts) == seq![(Shading::Sky { sun: false })],
{
    let next = Tracer::start(bounces).after(casts[0]);
    assert(next.run(casts.drop_first()) == Seq::<Shading>::empty());
}

} // verus!
