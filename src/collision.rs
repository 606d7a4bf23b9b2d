use vstd::prelude::*;
use crate::bird::{Bird, RADIUS, MAX_DIMENSION};
use crate::pipe::{Pipe, WIDTH};

verus! {

broadcast use vstd::seq_lib::group_seq_properties;

/// What a collision check tests the birds against.
#[derive(Clone, Copy, Debug, PartialEq, Eq, Structural)]
pub enum Hazard {
    /// The top and bottom edges of a playfield of the given height.
    Bounds { height: i64 },
    /// The solid parts of one pipe.
    Obstacle { pipe: Pipe },
}

impl Hazard {
    /// Whether a bird survives the check. Both bounds are inclusive: a bird
    /// that touches an edge of the playfield stays alive.
    pub open spec fn spares(self, b: Bird) -> bool {
        match self {
            Hazard::Bounds { height } => b.y + RADIUS <= height && b.y - RADIUS >= 0,
            Hazard::Obstacle { pipe } => pipe.spares(b),
        }
    }

    pub open spec fn spares_fn(self) -> spec_fn(Bird) -> bool {
        |b: Bird| self.spares(b)
    }

    pub open spec fn bounded(self) -> bool {
        match self {
            Hazard::Bounds { height } => 0 <= height <= MAX_DIMENSION,
            Hazard::Obstacle { pipe } => {
                &&& -8 * MAX_DIMENSION <= pipe.x <= 8 * MAX_DIMENSION
                &&& -4 * MAX_DIMENSION <= pipe.y <= 4 * MAX_DIMENSION
                &&& 0 <= pipe.hole_size <= MAX_DIMENSION
            },
        }
    }

    /// Tests one bird.
    pub fn spares_bird(&self, b: &Bird) -> (r: bool)
        requires
            self.bounded(),
            b.within(4 * MAX_DIMENSION),
        ensures
            r == self.spares(*b),
    {
        match self {
            Hazard::Bounds { height } => b.y + RADIUS <= *height && b.y - RADIUS >= 0,
            Hazard::Obstacle { pipe } => {
                let overlap = pipe.x <= crate::bird::X + RADIUS && pipe.x + WIDTH >= crate::bird::X
                    - RADIUS;
                !overlap || (b.y + RADIUS < pipe.y && b.y - RADIUS > pipe.y - pipe.hole_size)
            },
        }
    }
}

/// Whether some bird of `birds` has the score slot `j`.
pub open spec fn has_index(birds: Seq<Bird>, j: int) -> bool {
    exists|k: int| 0 <= k < birds.len() && #[trigger] birds[k].index == j
}

/// Whether no two birds of `birds` share a score slot.
pub open spec fn distinct_indices(birds: Seq<Bird>) -> bool {
    forall|a: int, b: int|
        0 <= a < birds.len() && 0 <= b < birds.len() && a != b ==> #[trigger] birds[a].index
            != #[trigger] birds[b].index
}

/// The birds that a check spares, in their order.
pub open spec fn survivors(birds: Seq<Bird>, hazard: Hazard) -> Seq<Bird> {
    birds.filter(hazard.spares_fn())
}

/// Each survivor is one of the birds it was taken from, and the survivors
/// still have distinct slots.
pub proof fn lemma_survivors(birds: Seq<Bird>, hazard: Hazard)
    requires
        distinct_indices(birds),
    ensures
        distinct_indices(survivors(birds, hazard)),
        forall|i: int|
            0 <= i < survivors(birds, hazard).len() ==> birds.contains(
                #[trigger] survivors(birds, hazard)[i],
            ),
        forall|j: int| has_index(survivors(birds, hazard), j) ==> has_index(birds, j),
        survivors(birds, hazard).len() <= birds.len(),
    decreases birds.len(),
{
    let pred = hazard.spares_fn();
    let s = survivors(birds, hazard);
    assert forall|i: int| 0 <= i < s.len() implies birds.contains(#[trigger] s[i]) by {
        assert(s.contains(s[i]));
        birds.lemma_filter_contains_rev(pred, s[i]);
    }
    assert forall|j: int| has_index(s, j) implies has_index(birds, j) by {
        let k = choose|k: int| 0 <= k < s.len() && #[trigger] s[k].index == j;
        assert(birds.contains(s[k]));
        let m = choose|m: int| 0 <= m < birds.len() && birds[m] == s[k];
        assert(birds[m].index == j);
    }
    if birds.len() > 0 {
        let rest = birds.drop_last();
        assert(distinct_indices(rest));
        lemma_survivors(rest, hazard);
        reveal(Seq::filter);
        assert(birds.filter(pred) == if pred(birds.last()) {
            rest.filter(pred).push(birds.last())
        } else {
            rest.filter(pred)
        });
        let sub = survivors(rest, hazard);
        if pred(birds.last()) {
            assert forall|a: int, b: int|
                0 <= a < s.len() && 0 <= b < s.len() && a != b implies #[trigger] s[a].index
                != #[trigger] s[b].index by {
                if a == s.len() - 1 || b == s.len() - 1 {
                    let o = if a == s.len() - 1 { b } else { a };
                    assert(rest.contains(sub[o]));
                    let m = choose|m: int| 0 <= m < rest.len() && rest[m] == sub[o];
                    assert(birds[m] == rest[m]);
                    assert(birds[birds.len() - 1] == birds.last());
                } else {
                    assert(s[a] == sub[a]);
                    assert(s[b] == sub[b]);
                }
            }
        }
        birds.lemma_filter_len(pred);
    }
}

/// Removes every bird that `hazard` does not spare, in one pass that keeps
/// the order of the others, and writes `tick` to the score slot of each
/// bird removed.
pub fn eliminate(birds: &mut Vec<Bird>, scores: &mut Vec<u64>, hazard: &Hazard, tick: u64)
    requires
        hazard.bounded(),
        distinct_indices(old(birds)@),
        forall|k: int|
            0 <= k < old(birds)@.len() ==> (#[trigger] old(birds)@[k]).index < old(scores)@.len(),
        forall|k: int| 0 <= k < old(birds)@.len() ==> (#[trigger] old(birds)@[k]).within(4 * MAX_DIMENSION),
    ensures
        final(birds)@ == survivors(old(birds)@, *hazard),
        final(scores)@.len() == old(scores)@.len(),
        forall|j: int|
            0 <= j < old(scores)@.len() ==> #[trigger] final(scores)@[j] == if has_index(old(birds)@, j)
                && !has_index(final(birds)@, j) {
                tick
            } else {
                old(scores)@[j]
            },
{
    let ghost pred = hazard.spares_fn();
    let ghost all = birds@;
    let ghost initial = scores@;
    let mut kept: Vec<Bird> = Vec::new();
    let mut k: usize = 0;
    while k < birds.len()
        invariant
            birds@ == all,
            pred == hazard.spares_fn(),
            hazard.bounded(),
            distinct_indices(all),
            forall|m: int| 0 <= m < all.len() ==> (#[trigger] all[m]).index < initial.len(),
            forall|m: int| 0 <= m < all.len() ==> (#[trigger] all[m]).within(4 * MAX_DIMENSION),
            0 <= k <= all.len(),
            kept@ == all.take(k as int).filter(pred),
            scores@.len() == initial.len(),
            forall|j: int|
                0 <= j < initial.len() ==> #[trigger] scores@[j] == if has_index(
                    all.take(k as int),
                    j,
                ) && !has_index(kept@, j) {
                    tick
                } else {
                    initial[j]
                },
        decreases all.len() - k,
    {
        let b = birds[k];
        let ghost prefix = all.take(k as int);
        let ghost next = all.take(k as int + 1);
        proof {
            assert(next == prefix.push(b));
            prefix.lemma_filter_push(b, pred);
            assert(distinct_indices(prefix));
            lemma_survivors(prefix, *hazard);
        }
        assert(!has_index(prefix, b.index as int)) by {
            if has_index(prefix, b.index as int) {
                let m = choose|m: int| 0 <= m < prefix.len() && #[trigger] prefix[m].index == b.index;
                assert(all[m] == prefix[m]);
            }
        }
        let ghost old_kept = kept@;
        if hazard.spares_bird(&b) {
            kept.push(b);
            assert(pred(b));
            assert forall|j: int| 0 <= j < initial.len() implies #[trigger] scores@[j] == if has_index(
                next,
                j,
            ) && !has_index(kept@, j) {
                tick
            } else {
                initial[j]
            } by {
                if j == b.index {
                    assert(next[k as int] == b);
                    assert(kept@[kept@.len() - 1] == b);
                } else {
                    if has_index(next, j) {
                        let m = choose|m: int| 0 <= m < next.len() && #[trigger] next[m].index == j;
                        assert(prefix[m] == next[m]);
                    }
                    if has_index(kept@, j) {
                        let m = choose|m: int| 0 <= m < kept@.len() && #[trigger] kept@[m].index == j;
                        assert(old_kept[m] == kept@[m]);
                    }
                    if has_index(prefix, j) {
                        let m = choose|m: int| 0 <= m < prefix.len() && #[trigger] prefix[m].index == j;
                        assert(next[m] == prefix[m]);
                    }
                    if has_index(old_kept, j) {
                        let m = choose|m: int| 0 <= m < old_kept.len() && #[trigger] old_kept[m].index == j;
                        assert(old_kept[m] == kept@[m]);
                    }
                }
            }
        } else {
            scores.set(b.index, tick);
            assert(!pred(b));
            assert forall|j: int| 0 <= j < initial.len() implies #[trigger] scores@[j] == if has_index(
                next,
                j,
            ) && !has_index(kept@, j) {
                tick
            } else {
                initial[j]
            } by {
                if j == b.index {
                    assert(next[k as int] == b);
                    if has_index(kept@, j) {
                        assert(has_index(prefix, j));
                    }
                } else {
                    if has_index(next, j) {
                        let m = choose|m: int| 0 <= m < next.len() && #[trigger] next[m].index == j;
                        assert(prefix[m] == next[m]);
                    }
                    if has_index(prefix, j) {
                        let m = choose|m: int| 0 <= m < prefix.len() && #[trigger] prefix[m].index == j;
                        assert(next[m] == prefix[m]);
                    }
                }
            }
        }
        k = k + 1;
    }
    assert(all.take(all.len() as int) == all);
    *birds = kept;
}

} // verus!
