use vstd::prelude::*;
use crate::collider::{collides, Collider};
use crate::entity::{abs, extent_h, extent_w, ids_unique, is_projectile, overlaps, Entity};

verus! {

/// One collision found by a pass: the projectile and the entity it struck,
/// each by id. Both are notified.
#[derive(Clone, Copy, Debug, PartialEq, Eq, Structural)]
pub struct Hit {
    pub projectile: u64,
    pub target: u64,
}

/// Entity `j` is a valid target for the projectile at `i`.
pub open spec fn engages(ents: Seq<Entity>, i: int, j: int) -> bool {
    &&& i != j
    &&& collides(ents[i].collider, ents[j].collider)
    &&& overlaps(ents[i], ents[j])
}

/// The first target of entity `i` at index `k` or later, in storage order.
pub open spec fn first_target_from(ents: Seq<Entity>, i: int, k: int) -> Option<int>
    decreases ents.len() - k,
{
    if k < 0 || k >= ents.len() {
        None
    } else if engages(ents, i, k) {
        Some(k)
    } else {
        first_target_from(ents, i, k + 1)
    }
}

pub open spec fn first_target(ents: Seq<Entity>, i: int) -> Option<int> {
    first_target_from(ents, i, 0)
}

/// The hits found for the projectiles among the first `n` entities: each
/// projectile with a target yields one hit, on its first target.
pub open spec fn hits_upto(ents: Seq<Entity>, n: int) -> Seq<Hit>
    decreases n,
{
    if n <= 0 {
        Seq::empty()
    } else {
        let prev = hits_upto(ents, n - 1);
        let p = n - 1;
        if is_projectile(ents[p]) {
            match first_target(ents, p) {
                Some(k) => prev.push(Hit { projectile: ents[p].id, target: ents[k].id }),
                None => prev,
            }
        } else {
            prev
        }
    }
}

/// All hits of one collision pass over the store.
pub open spec fn collision_hits(ents: Seq<Entity>) -> Seq<Hit> {
    hits_upto(ents, ents.len() as int)
}

proof fn lemma_first_target_in_range(ents: Seq<Entity>, i: int, k: int)
    ensures
        first_target_from(ents, i, k) matches Some(t) ==> 0 <= t < ents.len() && engages(ents, i, t),
    decreases ents.len() - k,
{
    if 0 <= k < ents.len() && !engages(ents, i, k) {
        lemma_first_target_in_range(ents, i, k + 1);
    }
}

/// Every hit among the first `n` entities comes from a projectile before `n`
/// that has a target, and names that projectile and its first target.
proof fn lemma_hits_origin(ents: Seq<Entity>, n: int)
    requires
        0 <= n <= ents.len(),
    ensures
        forall|h: int| #![trigger hits_upto(ents, n)[h]] 0 <= h < hits_upto(ents, n).len() ==> exists|q: int|
            0 <= q < n && is_projectile(ents[q]) && #[trigger] first_target(ents, q) is Some
                && hits_upto(ents, n)[h] == (Hit {
                    projectile: ents[q].id,
                    target: ents[first_target(ents, q)->0].id,
                }),
    decreases n,
{
    if n > 0 {
        lemma_hits_origin(ents, n - 1);
        let prev = hits_upto(ents, n - 1);
        assert forall|h: int| #![trigger hits_upto(ents, n)[h]] 0 <= h < hits_upto(ents, n).len() implies exists|q: int|
            0 <= q < n && is_projectile(ents[q]) && #[trigger] first_target(ents, q) is Some
                && hits_upto(ents, n)[h] == (Hit {
                    projectile: ents[q].id,
                    target: ents[first_target(ents, q)->0].id,
                }) by {
            if h < prev.len() {
                assert(hits_upto(ents, n)[h] == prev[h]);
            } else {
                assert(first_target(ents, n - 1) is Some);
            }
        }
    }
}

/// Two different hits among the first `n` entities name different projectiles.
proof fn lemma_hits_distinct(ents: Seq<Entity>, n: int)
    requires
        0 <= n <= ents.len(),
        ids_unique(ents),
    ensures
        forall|a: int, b: int|
            0 <= a < b < hits_upto(ents, n).len() ==> #[trigger] hits_upto(ents, n)[a].projectile
                != #[trigger] hits_upto(ents, n)[b].projectile,
    decreases n,
{
    if n > 0 {
        lemma_hits_distinct(ents, n - 1);
        lemma_hits_origin(ents, n - 1);
        let prev = hits_upto(ents, n - 1);
        let cur = hits_upto(ents, n);
        assert forall|a: int, b: int| 0 <= a < b < cur.len() implies #[trigger] cur[a].projectile
            != #[trigger] cur[b].projectile by {
            if b < prev.len() {
                assert(cur[a] == prev[a] && cur[b] == prev[b]);
            } else {
                assert(cur[a] == prev[a]);
                assert(cur[b].projectile == ents[n - 1].id);
                let q = choose|q: int|
                    0 <= q < n - 1 && is_projectile(ents[q]) && #[trigger] first_target(ents, q) is Some
                        && prev[a] == (Hit {
                            projectile: ents[q].id,
                            target: ents[first_target(ents, q)->0].id,
                        });
            }
        }
    }
}

/// Whatever number of targets a projectile touches, one pass emits exactly one
/// hit for it, on its first target, when it touches any, and none otherwise.
pub proof fn lemma_one_hit_per_projectile(ents: Seq<Entity>, p: int)
    requires
        ids_unique(ents),
        0 <= p < ents.len(),
        is_projectile(ents[p]),
    ensures
        first_target(ents, p) matches Some(k) ==> exists|h: int|
            0 <= h < collision_hits(ents).len() && #[trigger] collision_hits(ents)[h] == (Hit {
                projectile: ents[p].id,
                target: ents[k].id,
            }),
        first_target(ents, p) is None ==> forall|h: int|
            0 <= h < collision_hits(ents).len() ==> (#[trigger] collision_hits(ents)[h]).projectile
                != ents[p].id,
        forall|a: int, b: int|
            0 <= a < collision_hits(ents).len() && 0 <= b < collision_hits(ents).len()
                && (#[trigger] collision_hits(ents)[a]).projectile == ents[p].id
                && (#[trigger] collision_hits(ents)[b]).projectile == ents[p].id ==> a == b,
{
    let n = ents.len() as int;
    lemma_hits_origin(ents, n);
    lemma_hits_distinct(ents, n);
    lemma_hits_present(ents, p, n);
    let hits = collision_hits(ents);
    if first_target(ents, p) is None {
        assert forall|h: int| 0 <= h < hits.len() implies (#[trigger] hits[h]).projectile
            != ents[p].id by {
            let q = choose|q: int|
                0 <= q < n && is_projectile(ents[q]) && #[trigger] first_target(ents, q) is Some
                    && hits[h] == (Hit {
                        projectile: ents[q].id,
                        target: ents[first_target(ents, q)->0].id,
                    });
        }
    }
    assert forall|a: int, b: int|
        0 <= a < hits.len() && 0 <= b < hits.len() && (#[trigger] hits[a]).projectile == ents[p].id
            && (#[trigger] hits[b]).projectile == ents[p].id implies a == b by {
        if a < b {
            assert(hits[a].projectile != hits[b].projectile);
        } else if b < a {
            assert(hits[b].projectile != hits[a].projectile);
        }
    }
}

/// A projectile before `n` with a target has its hit among the first `n` entities' hits.
proof fn lemma_hits_present(ents: Seq<Entity>, p: int, n: int)
    requires
        0 <= p < n <= ents.len(),
        is_projectile(ents[p]),
    ensures
        first_target(ents, p) matches Some(k) ==> exists|h: int|
            0 <= h < hits_upto(ents, n).len() && #[trigger] hits_upto(ents, n)[h] == (Hit {
                projectile: ents[p].id,
                target: ents[k].id,
            }),
    decreases n,
{
    if first_target(ents, p) is Some {
        let k = first_target(ents, p)->0;
        if p == n - 1 {
            let h = hits_upto(ents, n).len() - 1;
            assert(hits_upto(ents, n)[h] == Hit { projectile: ents[p].id, target: ents[k].id });
        } else {
            lemma_hits_present(ents, p, n - 1);
            let prev = hits_upto(ents, n - 1);
            let h = choose|h: int|
                0 <= h < prev.len() && #[trigger] prev[h] == (Hit {
                    projectile: ents[p].id,
                    target: ents[k].id,
                });
            assert(hits_upto(ents, n)[h] == prev[h]);
        }
    }
}

/// The tallest bounding box in the store: an upper bound for the vertical
/// reach of any target, used to reject distant pairs cheaply.
fn max_height(ents: &Vec<Entity>) -> (r: i64)
    ensures
        0 <= r <= 0xffff * 0xffff,
        forall|k: int| 0 <= k < ents@.len() ==> extent_h(#[trigger] ents@[k]) <= r,
{
    let mut best: i64 = 0;
    let mut k: usize = 0;
    while k < ents.len()
        invariant
            k <= ents@.len(),
            0 <= best <= 0xffff * 0xffff,
            forall|j: int| 0 <= j < k ==> extent_h(#[trigger] ents@[j]) <= best,
        decreases ents@.len() - k,
    {
        let (_, h) = ents[k].size();
        if h > best {
            best = h;
        }
        k += 1;
    }
    best
}

fn abs_diff(a: i32, b: i32) -> (r: i64)
    ensures
        r == abs(a - b),
{
    let d = (a as i64) - (b as i64);
    if d < 0 {
        -d
    } else {
        d
    }
}

fn first_target_exec(ents: &Vec<Entity>, p: usize, reach: i64) -> (r: Option<usize>)
    requires
        p < ents@.len(),
        0 <= reach <= 0xffff * 0xffff,
        forall|k: int| 0 <= k < ents@.len() ==> extent_h(#[trigger] ents@[k]) <= reach,
    ensures
        match r {
            Some(k) => k < ents@.len() && first_target(ents@, p as int) == Some(k as int),
            None => first_target(ents@, p as int) is None,
        },
{
    let proj = &ents[p];
    let (pw, ph) = proj.size();
    let mut k: usize = 0;
    while k < ents.len()
        invariant
            k <= ents@.len(),
            p < ents@.len(),
            *proj == ents@[p as int],
            pw == extent_w(*proj),
            0 <= pw <= 0xffff * 0xffff,
            ph == extent_h(*proj),
            0 <= ph <= 0xffff * 0xffff,
            0 <= reach <= 0xffff * 0xffff,
            forall|j: int| 0 <= j < ents@.len() ==> extent_h(#[trigger] ents@[j]) <= reach,
            first_target(ents@, p as int) == first_target_from(ents@, p as int, k as int),
        decreases ents@.len() - k,
    {
        let other = &ents[k];
        let candidate = k != p && Collider::should_collide(&proj.collider, &other.collider);
        if candidate {
            let dy = abs_diff(proj.transform.y, other.transform.y);
            // Cheap reject: no box reaches further than `reach` vertically.
            if 2 * dy <= ph + reach {
                let (ow, oh) = other.size();
                let dx = abs_diff(proj.transform.x, other.transform.x);
                if 2 * dx <= pw + ow && 2 * dy <= ph + oh {
                    return Some(k);
                }
            } else {
                assert(extent_h(ents@[k as int]) <= reach);
            }
        }
        k += 1;
    }
    None
}

/// One collision pass. Only projectiles initiate checks; each projectile
/// yields at most one hit, on the first entity in storage order that its
/// layers admit and whose box touches its own.
pub fn check_collisions(ents: &Vec<Entity>) -> (r: Vec<Hit>)
    ensures
        r@ == collision_hits(ents@),
{
    let reach = max_height(ents);
    let mut hits: Vec<Hit> = Vec::new();
    let mut p: usize = 0;
    while p < ents.len()
        invariant
            p <= ents@.len(),
            0 <= reach <= 0xffff * 0xffff,
            forall|k: int| 0 <= k < ents@.len() ==> extent_h(#[trigger] ents@[k]) <= reach,
            hits@ == hits_upto(ents@, p as int),
        decreases ents@.len() - p,
    {
        if ents[p].is_projectile() {
            match first_target_exec(ents, p, reach) {
                Some(k) => {
                    hits.push(Hit { projectile: ents[p].id, target: ents[k].id });
                },
                None => {},
            }
        }
        p += 1;
    }
    hits
}

} // verus!
