//! Nearest-hit selection.
//!
//! Every object of a scene answers a ray with a hit or with nothing.  This
//! module decides which answer wins: the nearest hit, and of several hits at
//! the same distance the one of the object that comes first in the scene's
//! list.  The objects are scanned one after the other.
//!
//! A hit lies strictly in front of the ray's origin: an answer whose
//! distance is zero, below zero or no number counts as a miss.

use vstd::prelude::*;
use crate::intersect::{hit_of, intersect, Hit, Probe};
use crate::single::{at_most, is_positive, less, lt, positive};

verus! {

/// The surface that a ray meets first.
#[derive(Clone, Copy, Debug, PartialEq, Eq, Structural)]
pub struct RayHit {
    /// Index of the object in the scene's list.
    pub object: usize,
    /// Distance from the ray's origin, as a bit pattern; greater than zero
    /// for a hit that `raycast` returns.
    pub distance: u32,
    /// Whether the surface's normal is to be negated to point against the ray.
    pub flip_normal: bool,
}

/// Whether an object's answer is a valid hit: one at a distance greater than zero.
pub open spec fn is_hit(answer: Option<Hit>) -> bool {
    answer matches Some(hit) && is_positive(hit.distance)
}

/// Whether `hit` is the winner among `answers`: it is the valid hit of its
/// object, no valid hit is nearer, and every valid hit before it in the list
/// is strictly farther.
pub open spec fn is_nearest(answers: Seq<Option<Hit>>, hit: RayHit) -> bool {
    &&& hit.object < answers.len()
    &&& is_positive(hit.distance)
    &&& answers[hit.object as int] == Some(
        Hit { distance: hit.distance, flip_normal: hit.flip_normal },
    )
    &&& forall|j: int|
        0 <= j < answers.len() && is_hit(#[trigger] answers[j]) ==> at_most(
            hit.distance,
            answers[j].unwrap().distance,
        )
    &&& forall|j: int|
        0 <= j < hit.object && is_hit(#[trigger] answers[j]) ==> less(
            hit.distance,
            answers[j].unwrap().distance,
        )
}

/// Whether no object was hit.
pub open spec fn all_miss(answers: Seq<Option<Hit>>) -> bool {
    forall|j: int| 0 <= j < answers.len() ==> !is_hit(#[trigger] answers[j])
}

/// One step of the scan: the winner so far, after object `object` has
/// answered.  A new hit replaces the winner only when it is strictly nearer.
pub open spec fn closer_of(closest: Option<RayHit>, object: usize, answer: Option<Hit>) -> Option<
    RayHit,
> {
    if !is_hit(answer) {
        closest
    } else {
        match closest {
            Some(held) if !less(answer.unwrap().distance, held.distance) => closest,
            _ => Some(
                RayHit {
                    object,
                    distance: answer.unwrap().distance,
                    flip_normal: answer.unwrap().flip_normal,
                },
            ),
        }
    }
}

/// The winner of a whole list, as the scan from the first object to the last finds it.
pub open spec fn nearest(answers: Seq<Option<Hit>>) -> Option<RayHit>
    decreases answers.len(),
{
    if answers.len() == 0 {
        None
    } else {
        closer_of(nearest(answers.drop_last()), (answers.len() - 1) as usize, answers.last())
    }
}

/// The answers of the objects whose probes are `probes`.
pub open spec fn answers_of(probes: Seq<Probe>) -> Seq<Option<Hit>> {
    Seq::new(probes.len(), |i: int| hit_of(probes[i]))
}

/// Folds one object's answer into the winner so far.
pub fn closer(closest: Option<RayHit>, object: usize, answer: Option<Hit>) -> (r: Option<RayHit>)
    ensures
        r == closer_of(closest, object, answer),
{
    match answer {
        Some(hit) => {
            if !positive(hit.distance) {
                closest
            } else {
                let found = RayHit {
                    object,
                    distance: hit.distance,
                    flip_normal: hit.flip_normal,
                };
                match closest {
                    Some(held) => {
                        if lt(hit.distance, held.distance) {
                            Some(found)
                        } else {
                            closest
                        }
                    },
                    None => Some(found),
                }
            }
        },
        None => closest,
    }
}

/// The scan finds nothing exactly when every object missed, and otherwise the
/// nearest hit, the first of those equally near.
pub proof fn lemma_nearest_is_nearest(answers: Seq<Option<Hit>>)
    requires
        answers.len() <= usize::MAX,
    ensures
        nearest(answers) is None <==> all_miss(answers),
        nearest(answers) matches Some(hit) ==> is_nearest(answers, hit),
    decreases answers.len(),
{
    if answers.len() > 0 {
        let front = answers.drop_last();
        lemma_nearest_is_nearest(front);
        let last = (answers.len() - 1) as int;
        assert forall|j: int| 0 <= j < last implies #[trigger] answers[j] == front[j] by {}
        if nearest(answers) is None {
            assert(all_miss(front));
            assert forall|j: int| 0 <= j < answers.len() implies !is_hit(#[trigger] answers[j]) by {
                if j < last {
                    assert(answers[j] == front[j]);
                }
            }
        } else {
            let hit = nearest(answers).unwrap();
            if all_miss(answers) {
                assert(!is_hit(answers[last]));
                assert forall|j: int| 0 <= j < front.len() implies !is_hit(#[trigger] front[j]) by {
                    assert(front[j] == answers[j]);
                }
                assert(all_miss(front));
                assert(false);
            }
            assert forall|j: int|
                0 <= j < answers.len() && is_hit(#[trigger] answers[j]) implies at_most(
                hit.distance,
                answers[j].unwrap().distance,
            ) by {
                if j < last {
                    assert(answers[j] == front[j]);
                }
            }
            assert forall|j: int|
                0 <= j < hit.object && is_hit(#[trigger] answers[j]) implies less(
                hit.distance,
                answers[j].unwrap().distance,
            ) by {
                if j < last {
                    assert(answers[j] == front[j]);
                }
            }
            if hit.object < last {
                assert(answers[hit.object as int] == front[hit.object as int]);
            }
        }
    }
}

/// At most one hit is the nearest of a list: the rule leaves no choice, ties included.
pub proof fn lemma_nearest_unique(answers: Seq<Option<Hit>>, a: RayHit, b: RayHit)
    requires
        is_nearest(answers, a),
        is_nearest(answers, b),
    ensures
        a == b,
{
    assert(is_hit(answers[a.object as int]));
    assert(is_hit(answers[b.object as int]));
    if a.object < b.object {
        assert(less(b.distance, answers[a.object as int].unwrap().distance));
    } else if b.object < a.object {
        assert(less(a.distance, answers[b.object as int].unwrap().distance));
    }
}

/// Returns the nearest hit of a ray among the objects of a scene, or `None`
/// when the ray hits none.  `probes[i]` holds what the caller has computed of
/// the ray and object `i`.  Of several hits at the same distance, the object
/// that comes first in the list wins.
pub fn raycast(probes: &Vec<Probe>) -> (r: Option<RayHit>)
    ensures
        r == nearest(answers_of(probes@)),
        r is None <==> all_miss(answers_of(probes@)),
        r matches Some(hit) ==> is_nearest(answers_of(probes@), hit),
{
    let ghost answers = answers_of(probes@);
    let mut closest: Option<RayHit> = None;
    let mut i: usize = 0;
    while i < probes.len()
        invariant
            i <= probes.len(),
            answers == answers_of(probes@),
            closest == nearest(answers.take(i as int)),
        decreases probes.len() - i,
    {
        proof {
            let next = answers.take(i + 1);
            assert(next.drop_last() == answers.take(i as int));
            assert(next.last() == hit_of(probes@[i as int]));
        }
        closest = closer(closest, i, intersect(&probes[i]));
        i += 1;
    }
    proof {
        assert(answers.take(i as int) == answers);
        lemma_nearest_is_nearest(answers);
    }
    closest
}

} // verus!
