//! The per-tick targeting, movement, damage and cleanup rules. Each side's
//! units are processed in order: knockback, target validation, nearest-
//! target acquisition (ties broken by lowest id, a total order with no
//! float comparison to fail), then attack, approach, march, or base damage.
//! Afterwards positions are clamped into the field and dead units removed.

use vstd::prelude::*;
use crate::unit::Unit;
use crate::num::{clip_i64, scale_milli, sat_add_i64, sat_sub_i64, scale_by_dt, clamp_position, clamp_pos};

verus! {

/// The distance between two lane coordinates.
pub open spec fn dist(a: int, b: int) -> int {
    if a >= b {
        a - b
    } else {
        b - a
    }
}

/// `|a - b|` over the full i64 range, without overflow.
pub fn dist_u64(a: i64, b: i64) -> (r: u64)
    ensures
        r == dist(a as int, b as int),
{
    if a >= b {
        ((a as i128) - (b as i128)) as u64
    } else {
        ((b as i128) - (a as i128)) as u64
    }
}

/// The index of the unit with the given id, if any.
pub fn find_index_by_id(units: &Vec<Unit>, id: u64) -> (r: Option<usize>)
    ensures
        match r {
            Some(i) => i < units@.len() && units@[i as int].id == id,
            None => forall|k: int| 0 <= k < units@.len() ==> units@[k].id != id,
        },
{
    let mut i: usize = 0;
    while i < units.len()
        invariant
            i <= units@.len(),
            forall|k: int| 0 <= k < i ==> units@[k].id != id,
        decreases units@.len() - i,
    {
        if units[i].id == id {
            return Some(i);
        }
        i = i + 1;
    }
    None
}

/// Whether the unit at `i` is at least as good a target as the one at `k`
/// for a seeker at `pos`: strictly nearer, or equally near with an id no
/// larger.
pub open spec fn target_no_worse(s: Seq<Unit>, i: int, k: int, pos: int) -> bool {
    dist(s[k].position as int, pos) > dist(s[i].position as int, pos) || (dist(
        s[k].position as int,
        pos,
    ) == dist(s[i].position as int, pos) && s[k].id >= s[i].id)
}

/// The best target for a seeker at `pos`: the opposing unit at minimum
/// distance, ties broken by the lowest id. `None` exactly when there are no
/// opposing units.
pub fn nearest_index(units: &Vec<Unit>, pos: i64) -> (r: Option<usize>)
    ensures
        (r is None) <==> units@.len() == 0,
        match r {
            Some(i) => i < units@.len() && forall|k: int|
                0 <= k < units@.len() ==> target_no_worse(units@, i as int, k, pos as int),
            None => true,
        },
{
    if units.len() == 0 {
        return None;
    }
    let mut best: usize = 0;
    let mut best_dist: u64 = dist_u64(units[0].position, pos);
    let mut i: usize = 1;
    while i < units.len()
        invariant
            1 <= units@.len(),
            best < i <= units@.len(),
            best_dist == dist(units@[best as int].position as int, pos as int),
            forall|k: int| 0 <= k < i ==> target_no_worse(units@, best as int, k, pos as int),
        decreases units@.len() - i,
    {
        let d = dist_u64(units[i].position, pos);
        let ghost prev_best = best as int;
        if d < best_dist || (d == best_dist && units[i].id < units[best].id) {
            best = i;
            best_dist = d;
        }
        proof {
            assert forall|k: int| 0 <= k < i + 1 implies target_no_worse(
                units@,
                best as int,
                k,
                pos as int,
            ) by {
                if k < i {
                    assert(target_no_worse(units@, prev_best, k, pos as int));
                }
            }
        }
        i = i + 1;
    }
    Some(best)
}

/// Whether index `j` is a best target in `defs` for a seeker at `pos`:
/// no other defender is nearer, nor equally near with a smaller id.
pub open spec fn is_best_target(defs: Seq<Unit>, j: int, pos: int) -> bool {
    0 <= j < defs.len() && forall|k: int| 0 <= k < defs.len() ==> target_no_worse(defs, j, k, pos)
}

/// With pairwise-distinct ids the (distance, id) order is total, so the
/// best target is unique.
pub proof fn lemma_best_target_unique(defs: Seq<Unit>, j1: int, j2: int, pos: int)
    requires
        ids_distinct(defs),
        is_best_target(defs, j1, pos),
        is_best_target(defs, j2, pos),
    ensures
        j1 == j2,
{
    assert(target_no_worse(defs, j1, j2, pos));
    assert(target_no_worse(defs, j2, j1, pos));
    if j1 < j2 {
        assert(defs[j1].id != defs[j2].id);
    } else if j2 < j1 {
        assert(defs[j2].id != defs[j1].id);
    }
}

/// The best opposing unit's id, when there is any opposing unit at all.
pub open spec fn fresh_target(defs: Seq<Unit>, pos: int) -> Option<u64> {
    if defs.len() == 0 {
        None
    } else {
        let j = choose|j: int| is_best_target(defs, j, pos);
        if is_best_target(defs, j, pos) {
            Some(defs[j].id)
        } else {
            None
        }
    }
}

/// The target a unit ends the pass with: its previous target when that
/// still resolves to an opposing unit, else the best opposing unit, else
/// none.
pub open spec fn pass_target(u1: Unit, defs: Seq<Unit>) -> Option<u64> {
    match u1.target_id {
        Some(t) => if id_occurs(t, defs) {
            Some(t)
        } else {
            fresh_target(defs, u1.position as int)
        },
        None => fresh_target(defs, u1.position as int),
    }
}

/// One attacker's exact evolution over a pass, against the defenders'
/// constant positions and ids: knockback advances, the target resolves as
/// `pass_target`, and then the unit either attacks in range (holding its
/// position), approaches its target, marches toward the far edge, or
/// stands at the edge striking the base.
#[verifier::opaque]
pub open spec fn step_attacker(u0: Unit, defs: Seq<Unit>, forward: bool, dt: int) -> Unit {
    let u1 = u0.after_knockback(dt);
    let march = scale_milli(u1.speed as int, dt);
    match pass_target(u1, defs) {
        Some(t) => {
            let j = choose|j: int| 0 <= j < defs.len() && defs[j].id == t;
            let tpos = defs[j].position as int;
            if dist(tpos, u1.position as int) <= 10_000 {
                (Unit { target_id: Some(t), ..u1 })
            } else if tpos > u1.position {
                (Unit {
                    target_id: Some(t),
                    position: clip_i64(u1.position + march) as i64,
                    ..u1
                })
            } else {
                (Unit {
                    target_id: Some(t),
                    position: clip_i64(u1.position - march) as i64,
                    ..u1
                })
            }
        },
        None => {
            if forward && u1.position < 1_000_000 {
                (Unit { target_id: None, position: clip_i64(u1.position + march) as i64, ..u1 })
            } else if !forward && u1.position > 0 {
                (Unit { target_id: None, position: clip_i64(u1.position - march) as i64, ..u1 })
            } else {
                (Unit { target_id: None, ..u1 })
            }
        },
    }
}

/// The whole pass as a pure function: the defenders' hit points, the
/// defending base's hit points and the coin balance after the first `n`
/// attackers have acted. Targeting reads only the defenders' constant
/// positions and ids (`def0`); damage accumulates left to right, exactly
/// as the pass iterates.
#[verifier::opaque]
pub open spec fn pass_outcome(
    att0: Seq<Unit>,
    def0: Seq<Unit>,
    forward: bool,
    dt: int,
    base0: int,
    coins0: int,
    award: int,
    n: int,
) -> (Seq<Unit>, int, int)
    decreases n,
{
    if n <= 0 {
        (def0, base0, coins0)
    } else {
        let (defs, base, coins) = pass_outcome(att0, def0, forward, dt, base0, coins0, award, n - 1);
        let u1 = att0[n - 1].after_knockback(dt);
        let dmg = scale_milli(u1.attack as int, dt);
        match pass_target(u1, def0) {
            Some(t) => {
                let j = choose|j: int| 0 <= j < def0.len() && def0[j].id == t;
                if dist(def0[j].position as int, u1.position as int) <= 10_000 {
                    let newhp = clip_i64(defs[j].hp - dmg);
                    let defs2 = defs.update(j, (Unit { hp: newhp as i64, ..defs[j] }));
                    let coins2 = if newhp <= 0 && award > 0 {
                        crate::num::clip_u32(coins + award)
                    } else {
                        coins
                    };
                    (defs2, base, coins2)
                } else {
                    (defs, base, coins)
                }
            },
            None => {
                if forward && u1.position < 1_000_000 {
                    (defs, base, coins)
                } else if !forward && u1.position > 0 {
                    (defs, base, coins)
                } else {
                    (defs, clip_i64(base - dmg), coins)
                }
            },
        }
    }
}

/// A unit with its position pulled back into the field.
pub open spec fn clamped(u: Unit) -> Unit {
    (Unit { position: clamp_position(u.position as int) as i64, ..u })
}

/// One full combat round as a pure function of the post-spawn state: the
/// player pass (with the kill bounty), then the enemy pass (no bounty),
/// then clamping and corpse removal on both rosters. Returns the player
/// roster, the enemy roster, the player base, the enemy base and the coin
/// balance.
#[verifier::opaque]
pub open spec fn combat_outcome(
    p0: Seq<Unit>,
    e0: Seq<Unit>,
    pbase: int,
    ebase: int,
    coins: int,
    award: int,
    dt: int,
) -> (Seq<Unit>, Seq<Unit>, int, int, int) {
    let p1 = Seq::new(p0.len(), |i: int| step_attacker(p0[i], e0, true, dt));
    let pass1 = pass_outcome(p0, e0, true, dt, ebase, coins, award, p0.len() as int);
    let e1 = pass1.0;
    let e2 = Seq::new(e1.len(), |i: int| step_attacker(e1[i], p1, false, dt));
    let pass2 = pass_outcome(e1, p1, false, dt, pbase, pass1.2, 0, e1.len() as int);
    let p2 = pass2.0;
    let p4 = Seq::new(p2.len(), |i: int| clamped(p2[i])).filter(|u: Unit| is_alive(u));
    let e4 = Seq::new(e2.len(), |i: int| clamped(e2[i])).filter(|u: Unit| is_alive(u));
    (p4, e4, pass2.1, pass1.1, pass2.2)
}

/// Assembles `combat_outcome` from the two passes' stated results and the
/// cleanup steps' stated results.
pub proof fn lemma_combat_outcome(
    p0: Seq<Unit>,
    e0: Seq<Unit>,
    p1: Seq<Unit>,
    e1: Seq<Unit>,
    e2: Seq<Unit>,
    p2: Seq<Unit>,
    p3: Seq<Unit>,
    e3: Seq<Unit>,
    p4: Seq<Unit>,
    e4: Seq<Unit>,
    pbase0: int,
    ebase0: int,
    coins0: int,
    ebase1: int,
    coins1: int,
    pbase1: int,
    coins2: int,
    award: int,
    dt: int,
)
    requires
        p1.len() == p0.len(),
        forall|k: int|
            0 <= k < p0.len() ==> #[trigger] p1[k] == step_attacker(p0[k], e0, true, dt),
        e1 == pass_outcome(p0, e0, true, dt, ebase0, coins0, award, p0.len() as int).0,
        ebase1 == pass_outcome(p0, e0, true, dt, ebase0, coins0, award, p0.len() as int).1,
        coins1 == pass_outcome(p0, e0, true, dt, ebase0, coins0, award, p0.len() as int).2,
        e2.len() == e1.len(),
        forall|k: int|
            0 <= k < e1.len() ==> #[trigger] e2[k] == step_attacker(e1[k], p1, false, dt),
        p2 == pass_outcome(e1, p1, false, dt, pbase0, coins1, 0, e1.len() as int).0,
        pbase1 == pass_outcome(e1, p1, false, dt, pbase0, coins1, 0, e1.len() as int).1,
        coins2 == pass_outcome(e1, p1, false, dt, pbase0, coins1, 0, e1.len() as int).2,
        p3.len() == p2.len(),
        forall|k: int| 0 <= k < p2.len() ==> #[trigger] p3[k] == clamped(p2[k]),
        e3.len() == e2.len(),
        forall|k: int| 0 <= k < e2.len() ==> #[trigger] e3[k] == clamped(e2[k]),
        p4 == p3.filter(|u: Unit| is_alive(u)),
        e4 == e3.filter(|u: Unit| is_alive(u)),
    ensures
        combat_outcome(p0, e0, pbase0, ebase0, coins0, award, dt) == (
            p4,
            e4,
            pbase1,
            ebase1,
            coins2,
        ),
{
    reveal(combat_outcome);
    assert(p1 =~= Seq::new(p0.len(), |i: int| step_attacker(p0[i], e0, true, dt)));
    assert(e2 =~= Seq::new(e1.len(), |i: int| step_attacker(e1[i], p1, false, dt)));
    assert(p3 =~= Seq::new(p2.len(), |i: int| clamped(p2[i])));
    assert(e3 =~= Seq::new(e2.len(), |i: int| clamped(e2[i])));
}

/// Everything about a unit except its hit points.
pub open spec fn same_but_hp(a: Unit, b: Unit) -> bool {
    &&& a.id == b.id
    &&& a.unit_type == b.unit_type
    &&& a.position == b.position
    &&& a.max_hp == b.max_hp
    &&& a.attack == b.attack
    &&& a.speed == b.speed
    &&& a.is_player == b.is_player
    &&& a.target_id == b.target_id
    &&& a.knockback_velocity == b.knockback_velocity
    &&& a.knockback_ms == b.knockback_ms
    &&& a.knockback_total_ms == b.knockback_total_ms
}

/// Everything about a unit except its position.
pub open spec fn same_but_position(a: Unit, b: Unit) -> bool {
    &&& a.id == b.id
    &&& a.unit_type == b.unit_type
    &&& a.hp == b.hp
    &&& a.max_hp == b.max_hp
    &&& a.attack == b.attack
    &&& a.speed == b.speed
    &&& a.is_player == b.is_player
    &&& a.target_id == b.target_id
    &&& a.knockback_velocity == b.knockback_velocity
    &&& a.knockback_ms == b.knockback_ms
    &&& a.knockback_total_ms == b.knockback_total_ms
}

/// A unit that still fights: positive hit points.
pub open spec fn is_alive(u: Unit) -> bool {
    u.hp > 0
}

/// Everything about a unit except its knockback triple.
pub open spec fn same_but_knockback(a: Unit, b: Unit) -> bool {
    &&& a.id == b.id
    &&& a.unit_type == b.unit_type
    &&& a.position == b.position
    &&& a.hp == b.hp
    &&& a.max_hp == b.max_hp
    &&& a.attack == b.attack
    &&& a.speed == b.speed
    &&& a.is_player == b.is_player
    &&& a.target_id == b.target_id
}

/// Two rosters that agree on everything but the knockback fields keep the
/// same survivors, index by index, when a predicate that cannot see the
/// knockback fields filters both.
pub proof fn lemma_filter_pointwise(a: Seq<Unit>, b: Seq<Unit>, pred: spec_fn(Unit) -> bool)
    requires
        a.len() == b.len(),
        forall|k: int|
            0 <= k < a.len() ==> same_but_knockback(#[trigger] a[k], b[k]) && pred(a[k]) == pred(
                b[k],
            ),
    ensures
        a.filter(pred).len() == b.filter(pred).len(),
        forall|i: int|
            0 <= i < a.filter(pred).len() ==> same_but_knockback(
                #[trigger] a.filter(pred)[i],
                b.filter(pred)[i],
            ),
    decreases a.len(),
{
    reveal(Seq::filter);
    if a.len() > 0 {
        assert forall|k: int| 0 <= k < a.drop_last().len() implies same_but_knockback(
            #[trigger] a.drop_last()[k],
            b.drop_last()[k],
        ) && pred(a.drop_last()[k]) == pred(b.drop_last()[k]) by {
            assert(same_but_knockback(a[k], b[k]) && pred(a[k]) == pred(b[k]));
        }
        lemma_filter_pointwise(a.drop_last(), b.drop_last(), pred);
        assert(same_but_knockback(a.last(), b.last()));
        if pred(a.last()) {
            assert(a.filter(pred) == a.drop_last().filter(pred).push(a.last()));
            assert(b.filter(pred) == b.drop_last().filter(pred).push(b.last()));
        } else {
            assert(a.filter(pred) == a.drop_last().filter(pred));
            assert(b.filter(pred) == b.drop_last().filter(pred));
        }
    }
}

/// Clamps every unit's position into the field, changing nothing else.
pub fn clamp_all(units: &mut Vec<Unit>)
    ensures
        final(units)@.len() == old(units)@.len(),
        forall|k: int|
            0 <= k < old(units)@.len() ==> same_but_position(
                #[trigger] final(units)@[k],
                old(units)@[k],
            ) && final(units)@[k].position == clamp_position(old(units)@[k].position as int),
{
    let mut i: usize = 0;
    while i < units.len()
        invariant
            i <= units@.len(),
            units@.len() == old(units)@.len(),
            forall|k: int|
                0 <= k < i ==> same_but_position(#[trigger] units@[k], old(units)@[k])
                    && units@[k].position == clamp_position(old(units)@[k].position as int),
            forall|k: int| i <= k < units@.len() ==> units@[k] == old(units)@[k],
        decreases units@.len() - i,
    {
        let mut u = units[i];
        u.position = clamp_pos(u.position);
        units.set(i, u);
        i = i + 1;
    }
}

/// Removes every unit whose hit points have reached zero or less, keeping
/// the survivors in order.
pub fn remove_dead(units: &mut Vec<Unit>)
    ensures
        final(units)@ == old(units)@.filter(|u: Unit| is_alive(u)),
{
    let mut kept: Vec<Unit> = Vec::new();
    let mut i: usize = 0;
    proof {
        assert(old(units)@.subrange(0, 0) =~= Seq::<Unit>::empty());
        reveal(Seq::filter);
    }
    while i < units.len()
        invariant
            i <= units@.len(),
            units@ == old(units)@,
            kept@ == units@.subrange(0, i as int).filter(|u: Unit| is_alive(u)),
        decreases units@.len() - i,
    {
        let u = units[i];
        proof {
            reveal(Seq::filter);
            let prefix = units@.subrange(0, i as int);
            let prefix1 = units@.subrange(0, i + 1);
            assert(prefix1.drop_last() =~= prefix);
            assert(prefix1.last() == units@[i as int]);
        }
        if u.hp > 0 {
            kept.push(u);
        }
        i = i + 1;
    }
    proof {
        assert(units@.subrange(0, units@.len() as int) =~= units@);
    }
    *units = kept;
}

/// Every element of a filtered sequence occurs in the unfiltered one.
pub proof fn lemma_filter_elems(s: Seq<Unit>, pred: spec_fn(Unit) -> bool)
    ensures
        forall|i: int|
            0 <= i < s.filter(pred).len() ==> exists|j: int|
                0 <= j < s.len() && s[j] == #[trigger] s.filter(pred)[i],
    decreases s.len(),
{
    reveal(Seq::filter);
    if s.len() > 0 {
        lemma_filter_elems(s.drop_last(), pred);
        assert forall|i: int| 0 <= i < s.filter(pred).len() implies exists|j: int|
            0 <= j < s.len() && s[j] == #[trigger] s.filter(pred)[i] by {
            let f = s.filter(pred);
            let fd = s.drop_last().filter(pred);
            if pred(s.last()) {
                assert(f == fd.push(s.last()));
                if i < fd.len() {
                    let j = choose|j: int| 0 <= j < s.drop_last().len() && s.drop_last()[j] == fd[i];
                    assert(s[j] == f[i]);
                } else {
                    assert(f[i] == s.last());
                    assert(s[s.len() - 1] == f[i]);
                }
            } else {
                assert(f == fd);
                let j = choose|j: int| 0 <= j < s.drop_last().len() && s.drop_last()[j] == fd[i];
                assert(s[j] == f[i]);
            }
        }
    }
}

/// Pairwise-distinct unit ids.
pub open spec fn ids_distinct(s: Seq<Unit>) -> bool {
    forall|i: int, j: int| 0 <= i < j < s.len() ==> s[i].id != s[j].id
}

/// Filtering keeps ids pairwise distinct.
pub proof fn lemma_filter_ids_distinct(s: Seq<Unit>, pred: spec_fn(Unit) -> bool)
    requires
        ids_distinct(s),
    ensures
        ids_distinct(s.filter(pred)),
    decreases s.len(),
{
    reveal(Seq::filter);
    if s.len() > 0 {
        assert(ids_distinct(s.drop_last()));
        lemma_filter_ids_distinct(s.drop_last(), pred);
        lemma_filter_elems(s.drop_last(), pred);
        let f = s.filter(pred);
        let fd = s.drop_last().filter(pred);
        if pred(s.last()) {
            assert(f == fd.push(s.last()));
            assert forall|i: int, j: int| 0 <= i < j < f.len() implies f[i].id != f[j].id by {
                if j < fd.len() {
                    assert(f[i] == fd[i] && f[j] == fd[j]);
                } else {
                    assert(f[j] == s.last());
                    assert(f[i] == fd[i]);
                    let k = choose|k: int|
                        0 <= k < s.drop_last().len() && s.drop_last()[k] == fd[i];
                    assert(s[k] == fd[i]);
                    assert(s[k].id != s.last().id);
                }
            }
        }
    }
}

/// Whether some unit of `old` carries the same derived stats as `u`.
pub open spec fn has_ancestor(u: Unit, old: Seq<Unit>) -> bool {
    exists|j: int| 0 <= j < old.len() && u.same_derived(#[trigger] old[j])
}

/// Every unit of `new` keeps the derived stats of some unit of `old`.
pub open spec fn derived_from(new: Seq<Unit>, old: Seq<Unit>) -> bool {
    forall|i: int| 0 <= i < new.len() ==> has_ancestor(#[trigger] new[i], old)
}

/// Every unit of `new` keeps the derived stats of some unit of `old`, or
/// carries an id at or above `cutoff`: it was spawned after `old` stood.
pub open spec fn derived_from_or_new(new: Seq<Unit>, old: Seq<Unit>, cutoff: int) -> bool {
    forall|i: int|
        0 <= i < new.len() ==> has_ancestor(#[trigger] new[i], old) || new[i].id >= cutoff
}

/// Index-by-index preservation gives derivation.
pub proof fn lemma_derived_pointwise(a: Seq<Unit>, b: Seq<Unit>)
    requires
        a.len() == b.len(),
        forall|k: int| 0 <= k < a.len() ==> (#[trigger] a[k]).same_derived(b[k]),
    ensures
        derived_from(a, b),
{
    assert forall|i: int| 0 <= i < a.len() implies has_ancestor(#[trigger] a[i], b) by {
        assert(a[i].same_derived(b[i]));
    }
}

/// Derivation is transitive.
pub proof fn lemma_derived_trans(a: Seq<Unit>, b: Seq<Unit>, c: Seq<Unit>)
    requires
        derived_from(a, b),
        derived_from(b, c),
    ensures
        derived_from(a, c),
{
    assert forall|i: int| 0 <= i < a.len() implies has_ancestor(#[trigger] a[i], c) by {
        assert(has_ancestor(a[i], b));
        let jb = choose|jb: int| 0 <= jb < b.len() && a[i].same_derived(b[jb]);
        assert(has_ancestor(b[jb], c));
        let jc = choose|jc: int| 0 <= jc < c.len() && b[jb].same_derived(c[jc]);
        assert(a[i].same_derived(c[jc]));
    }
}

/// A filtered roster derives from the unfiltered one.
pub proof fn lemma_derived_filter(s: Seq<Unit>, pred: spec_fn(Unit) -> bool)
    ensures
        derived_from(s.filter(pred), s),
{
    lemma_filter_elems(s, pred);
    let f = s.filter(pred);
    assert forall|i: int| 0 <= i < f.len() implies has_ancestor(#[trigger] f[i], s) by {
        let j = choose|j: int| 0 <= j < s.len() && s[j] == f[i];
        assert(f[i].same_derived(s[j]));
    }
}

/// Index-by-index preservation extends a derivation-or-spawn chain.
pub proof fn lemma_derived_or_new_step(a: Seq<Unit>, b: Seq<Unit>, c: Seq<Unit>, cutoff: int)
    requires
        derived_from_or_new(b, c, cutoff),
        a.len() == b.len(),
        forall|k: int| 0 <= k < a.len() ==> (#[trigger] a[k]).same_derived(b[k]),
    ensures
        derived_from_or_new(a, c, cutoff),
{
    assert forall|i: int| 0 <= i < a.len() implies has_ancestor(#[trigger] a[i], c) || a[i].id
        >= cutoff by {
        assert(a[i].same_derived(b[i]));
        assert(has_ancestor(b[i], c) || b[i].id >= cutoff);
        if has_ancestor(b[i], c) {
            let j = choose|j: int| 0 <= j < c.len() && b[i].same_derived(c[j]);
            assert(a[i].same_derived(c[j]));
        }
    }
}

/// Filtering keeps a derivation-or-spawn chain.
pub proof fn lemma_derived_or_new_filter(
    s: Seq<Unit>,
    pred: spec_fn(Unit) -> bool,
    c: Seq<Unit>,
    cutoff: int,
)
    requires
        derived_from_or_new(s, c, cutoff),
    ensures
        derived_from_or_new(s.filter(pred), c, cutoff),
{
    lemma_filter_elems(s, pred);
    let f = s.filter(pred);
    assert forall|i: int| 0 <= i < f.len() implies has_ancestor(#[trigger] f[i], c) || f[i].id
        >= cutoff by {
        let k = choose|k: int| 0 <= k < s.len() && s[k] == f[i];
        assert(has_ancestor(s[k], c) || s[k].id >= cutoff);
        if has_ancestor(s[k], c) {
            let j = choose|j: int| 0 <= j < c.len() && s[k].same_derived(c[j]);
            assert(f[i].same_derived(c[j]));
        }
    }
}

/// Every unit on one side is inside the field, alive, sanely statted,
/// carries the side's flag, and has an id below the allocation cursor.
pub open spec fn side_wf(s: Seq<Unit>, next_id: int, player: bool) -> bool {
    forall|i: int|
        0 <= i < s.len() ==> {
            &&& 0 <= (#[trigger] s[i]).position <= 1_000_000
            &&& s[i].hp > 0
            &&& s[i].attack >= 0
            &&& s[i].speed >= 0
            &&& s[i].id < next_id
            &&& s[i].is_player == player
        }
}

/// No unit id occurs on both sides.
pub open spec fn sides_disjoint(a: Seq<Unit>, b: Seq<Unit>) -> bool {
    forall|i: int, j: int|
        0 <= i < a.len() && 0 <= j < b.len() ==> (#[trigger] a[i]).id != (#[trigger] b[j]).id
}

/// Whether `u` occurs, as a whole value, in `s`.
pub open spec fn unit_occurs(u: Unit, s: Seq<Unit>) -> bool {
    exists|j: int| 0 <= j < s.len() && #[trigger] s[j] == u
}

/// Whether some unit of `old` carries this id.
pub open spec fn id_occurs(id: u64, old: Seq<Unit>) -> bool {
    exists|j: int| 0 <= j < old.len() && (#[trigger] old[j]).id == id
}

/// Every id of `new` already occurred in `old`.
pub open spec fn ids_within(new: Seq<Unit>, old: Seq<Unit>) -> bool {
    forall|i: int| 0 <= i < new.len() ==> id_occurs((#[trigger] new[i]).id, old)
}

/// After a tick's passes one roster relates to its pre-tick self index by
/// index with unchanged derived stats and clamped positions; removing the
/// dead then leaves a well-formed roster whose units all come from the
/// pre-tick roster.
pub proof fn lemma_roster_cleanup(
    s0: Seq<Unit>,
    s3: Seq<Unit>,
    s4: Seq<Unit>,
    next: int,
    player: bool,
)
    requires
        side_wf(s0, next, player),
        ids_distinct(s0),
        s3.len() == s0.len(),
        forall|k: int| 0 <= k < s3.len() ==> (#[trigger] s3[k]).same_derived(s0[k]),
        forall|k: int| 0 <= k < s3.len() ==> 0 <= (#[trigger] s3[k]).position <= 1_000_000,
        s4 == s3.filter(|u: Unit| is_alive(u)),
    ensures
        side_wf(s4, next, player),
        ids_distinct(s4),
        derived_from(s4, s0),
        ids_within(s4, s0),
{
    let alive = |u: Unit| is_alive(u);
    lemma_filter_elems(s3, alive);
    assert forall|a: int, b: int| 0 <= a < b < s3.len() implies s3[a].id != s3[b].id by {
        assert(s3[a].same_derived(s0[a]) && s3[b].same_derived(s0[b]));
    }
    lemma_filter_ids_distinct(s3, alive);
    lemma_derived_filter(s3, alive);
    lemma_derived_pointwise(s3, s0);
    lemma_derived_trans(s4, s3, s0);
    assert forall|i: int| 0 <= i < s4.len() implies {
        let u = #[trigger] s4[i];
        &&& 0 <= u.position <= 1_000_000
        &&& u.hp > 0
        &&& u.attack >= 0
        &&& u.speed >= 0
        &&& u.id < next
        &&& u.is_player == player
        &&& id_occurs(u.id, s0)
    } by {
        s3.lemma_filter_pred(alive, i);
        let j = choose|j: int| 0 <= j < s3.len() && s3[j] == s4[i];
        assert(s3[j].same_derived(s0[j]));
        assert(s0[j].id == s4[i].id);
    }
}

/// Rosters whose ids come from disjoint rosters are disjoint.
pub proof fn lemma_disjoint_from_within(a: Seq<Unit>, a0: Seq<Unit>, b: Seq<Unit>, b0: Seq<Unit>)
    requires
        ids_within(a, a0),
        ids_within(b, b0),
        sides_disjoint(a0, b0),
    ensures
        sides_disjoint(a, b),
{
    assert forall|i: int, j: int| 0 <= i < a.len() && 0 <= j < b.len() implies (
    #[trigger] a[i]).id != (#[trigger] b[j]).id by {
        assert(id_occurs(a[i].id, a0));
        assert(id_occurs(b[j].id, b0));
        let ia = choose|ia: int| 0 <= ia < a0.len() && a0[ia].id == a[i].id;
        let ib = choose|ib: int| 0 <= ib < b0.len() && b0[ib].id == b[j].id;
        assert(a0[ia].id != b0[ib].id);
    }
}

/// A derivation composed with a derivation-or-spawn chain stays one.
pub proof fn lemma_derived_or_new_trans(a: Seq<Unit>, b: Seq<Unit>, c: Seq<Unit>, cutoff: int)
    requires
        derived_from(a, b),
        derived_from_or_new(b, c, cutoff),
    ensures
        derived_from_or_new(a, c, cutoff),
{
    assert forall|i: int| 0 <= i < a.len() implies has_ancestor(#[trigger] a[i], c) || a[i].id
        >= cutoff by {
        assert(has_ancestor(a[i], b));
        let jb = choose|jb: int| 0 <= jb < b.len() && a[i].same_derived(b[jb]);
        assert(has_ancestor(b[jb], c) || b[jb].id >= cutoff);
        if has_ancestor(b[jb], c) {
            let jc = choose|jc: int| 0 <= jc < c.len() && b[jb].same_derived(c[jc]);
            assert(a[i].same_derived(c[jc]));
        }
    }
}

/// One side's full per-tick pass. The `attackers` move and strike; the
/// `defenders` can only lose hit points; the defenders' base can only lose
/// hit points; coins can only grow, and only when `award` is positive
/// (the player side passes the kill bounty, the enemy side passes zero).
/// `forward` says which way untargeted attackers march: toward the high
/// end of the lane (player side) or the low end (enemy side).
#[verifier::rlimit(100)]
pub fn advance_side(
    attackers: &mut Vec<Unit>,
    defenders: &mut Vec<Unit>,
    defender_base_hp: &mut i64,
    coins: &mut u32,
    award: u32,
    forward: bool,
    dt_ms: u32,
)
    requires
        forall|k: int| 0 <= k < old(attackers)@.len() ==> #[trigger] old(attackers)@[k].attack >= 0,
        ids_distinct(old(defenders)@),
    ensures
        final(attackers)@.len() == old(attackers)@.len(),
        forall|k: int|
            0 <= k < old(attackers)@.len() ==> (#[trigger] final(attackers)@[k]).same_derived(
                old(attackers)@[k],
            ) && final(attackers)@[k].hp == old(attackers)@[k].hp,
        final(defenders)@.len() == old(defenders)@.len(),
        forall|k: int|
            0 <= k < old(defenders)@.len() ==> same_but_hp(
                #[trigger] final(defenders)@[k],
                old(defenders)@[k],
            ) && final(defenders)@[k].hp <= old(defenders)@[k].hp,
        *final(defender_base_hp) <= *old(defender_base_hp),
        *final(coins) >= *old(coins),
        forall|k: int|
            0 <= k < final(attackers)@.len() ==> match (#[trigger] final(attackers)@[k]).target_id {
                Some(t) => id_occurs(t, final(defenders)@),
                None => final(defenders)@.len() == 0,
            },
        forall|k: int|
            0 <= k < old(attackers)@.len() ==> #[trigger] final(attackers)@[k] == step_attacker(
                old(attackers)@[k],
                old(defenders)@,
                forward,
                dt_ms as int,
            ),
        ({
            let outcome = pass_outcome(
                old(attackers)@,
                old(defenders)@,
                forward,
                dt_ms as int,
                *old(defender_base_hp) as int,
                *old(coins) as int,
                award as int,
                old(attackers)@.len() as int,
            );
            &&& final(defenders)@ == outcome.0
            &&& *final(defender_base_hp) == outcome.1
            &&& *final(coins) == outcome.2
        }),
{
    let ghost att0 = old(attackers)@;
    let ghost def0 = old(defenders)@;
    let ghost base0 = *old(defender_base_hp) as int;
    let ghost coins0 = *old(coins) as int;
    proof {
        reveal(pass_outcome);
    }
    let mut i: usize = 0;
    while i < attackers.len()
        invariant
            i <= att0.len(),
            attackers@.len() == att0.len(),
            defenders@.len() == def0.len(),
            forall|k: int| 0 <= k < att0.len() ==> #[trigger] att0[k].attack >= 0,
            forall|k: int|
                0 <= k < i ==> (#[trigger] attackers@[k]).same_derived(att0[k]) && attackers@[k].hp
                    == att0[k].hp,
            forall|k: int| i <= k < att0.len() ==> attackers@[k] == att0[k],
            forall|k: int|
                0 <= k < def0.len() ==> same_but_hp(#[trigger] defenders@[k], def0[k])
                    && defenders@[k].hp <= def0[k].hp,
            *defender_base_hp <= *old(defender_base_hp),
            *coins >= *old(coins),
            forall|k: int|
                0 <= k < i ==> match (#[trigger] attackers@[k]).target_id {
                    Some(t) => id_occurs(t, def0),
                    None => def0.len() == 0,
                },
            ids_distinct(def0),
            forall|k: int|
                0 <= k < i ==> #[trigger] attackers@[k] == step_attacker(
                    att0[k],
                    def0,
                    forward,
                    dt_ms as int,
                ),
            ({
                let outcome = pass_outcome(
                    att0,
                    def0,
                    forward,
                    dt_ms as int,
                    base0,
                    coins0,
                    award as int,
                    i as int,
                );
                &&& defenders@ == outcome.0
                &&& *defender_base_hp == outcome.1
                &&& *coins == outcome.2
            }),
        decreases att0.len() - i,
    {
        let ghost defs_pre = defenders@;
        let ghost base_pre = *defender_base_hp as int;
        let ghost coins_pre = *coins as int;
        let mut u = attackers[i];
        u.knockback_step(dt_ms);
        let ghost u1v = att0[i as int].after_knockback(dt_ms as int);
        proof {
            assert(u == u1v);
        }
        match u.target_id {
            Some(tid) => {
                match find_index_by_id(defenders, tid) {
                    Some(idx) => {
                        proof {
                            assert(def0[idx as int].id == tid);
                            assert(id_occurs(tid, def0));
                            assert(pass_target(u1v, def0) == Some(tid));
                        }
                    },
                    None => {
                        proof {
                            assert forall|k: int| 0 <= k < def0.len() implies def0[k].id
                                != tid by {
                                assert(defenders@[k].id != tid);
                                assert(same_but_hp(defenders@[k], def0[k]));
                            }
                            assert(!id_occurs(tid, def0));
                        }
                        u.target_id = None;
                    },
                }
            },
            None => {},
        }
        if u.target_id.is_none() {
            match nearest_index(defenders, u.position) {
                Some(j) => {
                    u.target_id = Some(defenders[j].id);
                    proof {
                        assert(def0[j as int].id == defenders@[j as int].id);
                        assert(id_occurs(defenders@[j as int].id, def0));
                        assert forall|k: int| 0 <= k < def0.len() implies target_no_worse(
                            def0,
                            j as int,
                            k,
                            u1v.position as int,
                        ) by {
                            assert(target_no_worse(defenders@, j as int, k, u1v.position as int));
                            assert(same_but_hp(defenders@[k], def0[k]));
                            assert(same_but_hp(defenders@[j as int], def0[j as int]));
                        }
                        assert(is_best_target(def0, j as int, u1v.position as int));
                        let jc = choose|jc: int| is_best_target(def0, jc, u1v.position as int);
                        lemma_best_target_unique(def0, jc, j as int, u1v.position as int);
                        assert(fresh_target(def0, u1v.position as int) == Some(def0[j as int].id));
                        assert(pass_target(u1v, def0) == u.target_id);
                    }
                },
                None => {
                    proof {
                        assert(def0.len() == 0);
                        assert(pass_target(u1v, def0) == Option::<u64>::None);
                    }
                },
            }
        }
        proof {
            assert(pass_target(u1v, def0) == u.target_id);
            assert(match u.target_id {
                Some(t) => id_occurs(t, def0),
                None => def0.len() == 0,
            });
            assert(u == (Unit { target_id: u.target_id, ..u1v }));
        }
        match u.target_id {
            Some(tid) => {
                match find_index_by_id(defenders, tid) {
                    Some(j) => {
                        proof {
                            let jc = choose|jc: int| 0 <= jc < def0.len() && def0[jc].id == tid;
                            assert(def0[j as int].id == tid);
                            if jc < j as int {
                                assert(def0[jc].id != def0[j as int].id);
                            } else if (j as int) < jc {
                                assert(def0[j as int].id != def0[jc].id);
                            }
                            assert(jc == j as int);
                            assert(def0[j as int].position == defenders@[j as int].position);
                        }
                        let tpos = defenders[j].position;
                        let d = dist_u64(tpos, u.position);
                        if d <= 10_000 {
                            let dmg = scale_by_dt(u.attack, dt_ms);
                            proof {
                                reveal(step_attacker);
                                crate::num::lemma_scale_nonneg(u.attack as int, dt_ms as int);
                                assert(u == step_attacker(att0[i as int], def0, forward, dt_ms as int));
                            }
                            let mut t = defenders[j];
                            t.hp = sat_sub_i64(t.hp, dmg);
                            let killed = t.hp <= 0;
                            defenders.set(j, t);
                            if killed && award > 0 {
                                *coins = coins.saturating_add(award);
                            }
                            proof {
                                reveal(pass_outcome);
                                assert(t == (Unit {
                                    hp: clip_i64(defs_pre[j as int].hp - dmg as int) as i64,
                                    ..defs_pre[j as int]
                                }));
                                assert(defenders@ == pass_outcome(
                                    att0,
                                    def0,
                                    forward,
                                    dt_ms as int,
                                    base0,
                                    coins0,
                                    award as int,
                                    i + 1,
                                ).0);
                                assert(*coins == pass_outcome(
                                    att0,
                                    def0,
                                    forward,
                                    dt_ms as int,
                                    base0,
                                    coins0,
                                    award as int,
                                    i + 1,
                                ).2);
                            }
                        } else {
                            let step = scale_by_dt(u.speed, dt_ms);
                            if tpos > u.position {
                                u.position = sat_add_i64(u.position, step);
                            } else {
                                u.position = sat_sub_i64(u.position, step);
                            }
                            proof {
                                reveal(step_attacker);
                                reveal(pass_outcome);
                                assert(u == step_attacker(att0[i as int], def0, forward, dt_ms as int));
                            }
                        }
                    },
                    None => {
                        proof {
                            let jw = choose|jw: int| 0 <= jw < def0.len() && def0[jw].id == tid;
                            assert(defenders@[jw].id == tid);
                            assert(false);
                        }
                    },
                }
            },
            None => {
                let step = scale_by_dt(u.speed, dt_ms);
                let dmg = scale_by_dt(u.attack, dt_ms);
                proof {
                    crate::num::lemma_scale_nonneg(u.attack as int, dt_ms as int);
                }
                if forward {
                    if u.position < 1_000_000 {
                        u.position = sat_add_i64(u.position, step);
                    } else {
                        *defender_base_hp = sat_sub_i64(*defender_base_hp, dmg);
                    }
                } else {
                    if u.position > 0 {
                        u.position = sat_sub_i64(u.position, step);
                    } else {
                        *defender_base_hp = sat_sub_i64(*defender_base_hp, dmg);
                    }
                }
                proof {
                    reveal(step_attacker);
                    reveal(pass_outcome);
                    assert(u == step_attacker(att0[i as int], def0, forward, dt_ms as int));
                }
            },
        }
        proof {
            reveal(pass_outcome);
        }
        attackers.set(i, u);
        i = i + 1;
    }
    proof {
        assert forall|k: int| 0 <= k < attackers@.len() implies match (
        #[trigger] attackers@[k]).target_id {
            Some(t) => id_occurs(t, defenders@),
            None => defenders@.len() == 0,
        } by {
            if attackers@[k].target_id is Some {
                let t = choose|t: u64| attackers@[k].target_id == Some(t);
                assert(id_occurs(t, def0));
                let j = choose|j: int| 0 <= j < def0.len() && def0[j].id == t;
                assert(same_but_hp(defenders@[j], def0[j]));
                assert(defenders@[j].id == t);
            }
        }
    }
}

} // verus!
