//! The ordered group list and its position-reindex algorithm.
//!
//! Groups carry a dense, zero-based position: at any time the positions of
//! the live groups are exactly `{0, 1, ..., n-1}`, no duplicates, no gaps.
//! Insert, move and delete are the only mutations, and each preserves that
//! order while shifting the neighbours it passes over.
use vstd::prelude::*;
use vstd::seq_lib::*;
use vstd::set_lib::*;
use crate::packet::Group;

verus! {

broadcast use vstd::seq_lib::group_seq_lib_default, vstd::group_vstd_default;

/// The group list's invariant: identities unique, positions unique and all
/// below the number of live groups (hence dense, see
/// `lemma_group_positions_dense`).
pub open spec fn groups_wf(gs: Seq<Group>) -> bool {
    &&& forall|i: int, j: int|
        0 <= i < j < gs.len() ==> #[trigger] gs[i].id != #[trigger] gs[j].id
    &&& forall|i: int, j: int|
        0 <= i < j < gs.len() ==> #[trigger] gs[i].pos != #[trigger] gs[j].pos
    &&& forall|i: int| 0 <= i < gs.len() ==> #[trigger] gs[i].pos < gs.len()
}

pub open spec fn has_group(gs: Seq<Group>, id: usize) -> bool {
    exists|i: int| 0 <= i < gs.len() && gs[i].id == id
}

/// Where a neighbour's position lands when a group moves from rank `o` to
/// rank `p`: the positions between them make room in the move's direction.
pub open spec fn shift_for_move(pos: usize, o: usize, p: usize) -> usize {
    if p > o {
        if o < pos <= p {
            (pos - 1) as usize
        } else {
            pos
        }
    } else if p < o {
        if p <= pos < o {
            (pos + 1) as usize
        } else {
            pos
        }
    } else {
        pos
    }
}

/// Every group's position shifted as the move from `o` to `p` demands;
/// identities and names untouched.
pub open spec fn shift_groups_for_move(gs: Seq<Group>, o: usize, p: usize) -> Seq<Group> {
    gs.map_values(|x: Group| Group { id: x.id, pos: shift_for_move(x.pos, o, p), name: x.name })
}

/// Every group at or above rank `p` moved up one, making room for an
/// insertion at `p`.
pub open spec fn bump_groups_from(gs: Seq<Group>, p: usize) -> Seq<Group> {
    gs.map_values(
        |x: Group|
            Group {
                id: x.id,
                pos: if x.pos >= p {
                    (x.pos + 1) as usize
                } else {
                    x.pos
                },
                name: x.name,
            },
    )
}

/// Every group above rank `d` moved down one, closing the gap a departure
/// at `d` leaves.
pub open spec fn close_groups_above(gs: Seq<Group>, d: usize) -> Seq<Group> {
    gs.map_values(
        |x: Group|
            Group {
                id: x.id,
                pos: if x.pos > d {
                    (x.pos - 1) as usize
                } else {
                    x.pos
                },
                name: x.name,
            },
    )
}

/// Finds the index holding a group identity.
fn find_group_index(groups: &Vec<Group>, id: usize) -> (r: Option<usize>)
    ensures
        match r {
            Some(i) => i < groups@.len() && groups@[i as int].id == id,
            None => !has_group(groups@, id),
        },
{
    let mut i: usize = 0;
    while i < groups.len()
        invariant
            i <= groups@.len(),
            forall|k: int| 0 <= k < i ==> groups@[k].id != id,
        decreases groups@.len() - i,
    {
        if groups[i].id == id {
            return Some(i);
        }
        i += 1;
    }
    None
}

/// Applies a `GroupReceive` marked new: moves a known group to its announced
/// position, or makes room for an unknown one and inserts it. Returns false,
/// leaving the list untouched, when the announced position would tear the
/// dense order (a moved group must land below the count, a fresh one at most
/// at the count).
#[verifier::rlimit(100)]
#[verifier::spinoff_prover]
pub fn group_insert_new(groups: &mut Vec<Group>, g: Group) -> (ok: bool)
    requires
        groups_wf(old(groups)@),
    ensures
        groups_wf(final(groups)@),
        has_group(old(groups)@, g.id) ==> (ok <==> g.pos < old(groups)@.len()),
        !has_group(old(groups)@, g.id) ==> (ok <==> g.pos <= old(groups)@.len()),
        !ok ==> final(groups)@ == old(groups)@,
        ok && has_group(old(groups)@, g.id) ==> exists|oi: int|
            {
                &&& 0 <= oi < old(groups)@.len()
                &&& old(groups)@[oi].id == g.id
                &&& final(groups)@ == shift_groups_for_move(
                    old(groups)@,
                    old(groups)@[oi].pos,
                    g.pos,
                ).update(oi, g)
            },
        ok && !has_group(old(groups)@, g.id) ==> final(groups)@ == bump_groups_from(
            old(groups)@,
            g.pos,
        ).push(g),
{
    let n = groups.len();
    match find_group_index(groups, g.id) {
        Some(oi) => {
            if g.pos >= n {
                return false;
            }
            let o = groups[oi].pos;
            let p = g.pos;
            let mut k: usize = 0;
            while k < groups.len()
                invariant
                    groups@.len() == old(groups)@.len(),
                    k <= groups@.len(),
                    oi < groups@.len(),
                    o < groups@.len(),
                    p < groups@.len(),
                    old(groups)@[oi as int].pos == o,
                    forall|t: int|
                        0 <= t < groups@.len() ==> #[trigger] groups@[t].id == old(groups)@[t].id
                            && groups@[t].name == old(groups)@[t].name,
                    forall|t: int|
                        0 <= t < k && t != oi ==> #[trigger] groups@[t].pos == shift_for_move(
                            old(groups)@[t].pos,
                            o,
                            p,
                        ),
                    forall|t: int|
                        (k <= t < groups@.len() || t == oi) ==> #[trigger] groups@[t].pos == old(
                            groups,
                        )@[t].pos,
                decreases groups@.len() - k,
            {
                if k != oi {
                    let pos = groups[k].pos;
                    if p > o {
                        if pos > o && pos <= p {
                            groups[k].pos = pos - 1;
                        }
                    } else if p < o {
                        if pos >= p && pos < o {
                            groups[k].pos = pos + 1;
                        }
                    }
                }
                proof {
                    assert forall|t: int|
                        0 <= t < groups@.len() implies #[trigger] groups@[t].id == old(
                        groups,
                    )@[t].id && groups@[t].name == old(groups)@[t].name by {
                        assert(groups@[t].id == old(groups)@[t].id);
                        assert(groups@[t].name == old(groups)@[t].name);
                    }
                }
                k += 1;
            }
            let ghost before = groups@;
            groups[oi] = g;
            proof {
                let oiv = oi as int;
                assert(groups@ == before.update(oiv, g));
                let m = shift_groups_for_move(old(groups)@, o, p).update(oiv, g);
                assert forall|t: int| 0 <= t < groups@.len() implies groups@[t] == m[t] by {
                    if t != oiv {
                        assert(groups@[t] == before[t]);
                        assert(before[t].pos == shift_for_move(old(groups)@[t].pos, o, p));
                        assert(before[t].id == old(groups)@[t].id);
                        assert(before[t].name == old(groups)@[t].name);
                    }
                    assert(groups@[t] =~= m[t]);
                }
                assert(groups@ =~= m);
                assert forall|i: int, j: int|
                    0 <= i < j < groups@.len() implies #[trigger] groups@[i].pos
                    != #[trigger] groups@[j].pos by {
                    assert(old(groups)@[i].pos != old(groups)@[j].pos || i == j);
                }
            }
            true
        },
        None => {
            if g.pos > n {
                return false;
            }
            let p = g.pos;
            let mut k: usize = 0;
            while k < groups.len()
                invariant
                    groups@.len() == old(groups)@.len(),
                    k <= groups@.len(),
                    p <= groups@.len(),
                    forall|t: int|
                        0 <= t < groups@.len() ==> #[trigger] groups@[t].id == old(groups)@[t].id
                            && groups@[t].name == old(groups)@[t].name,
                    forall|t: int|
                        0 <= t < k ==> #[trigger] groups@[t].pos == (if old(groups)@[t].pos >= p {
                            (old(groups)@[t].pos + 1) as usize
                        } else {
                            old(groups)@[t].pos
                        }),
                    forall|t: int|
                        k <= t < groups@.len() ==> #[trigger] groups@[t].pos == old(groups)@[t].pos,
                    forall|t: int| 0 <= t < groups@.len() ==> old(groups)@[t].pos < groups@.len(),
                decreases groups@.len() - k,
            {
                let pos = groups[k].pos;
                if pos >= p {
                    groups[k].pos = pos + 1;
                }
                proof {
                    assert forall|t: int|
                        0 <= t < groups@.len() implies #[trigger] groups@[t].id == old(
                        groups,
                    )@[t].id && groups@[t].name == old(groups)@[t].name by {
                        assert(groups@[t].id == old(groups)@[t].id);
                        assert(groups@[t].name == old(groups)@[t].name);
                    }
                }
                k += 1;
            }
            let ghost before = groups@;
            groups.push(g);
            proof {
                assert(groups@ == before.push(g));
                let m = bump_groups_from(old(groups)@, p).push(g);
                assert forall|t: int| 0 <= t < groups@.len() implies groups@[t] == m[t] by {
                    if t < before.len() {
                        assert(groups@[t] == before[t]);
                        assert(before[t].id == old(groups)@[t].id);
                        assert(before[t].name == old(groups)@[t].name);
                    } else {
                        assert(groups@[t] == g);
                    }
                    assert(groups@[t] =~= m[t]);
                }
                assert(groups@ =~= m);
            }
            true
        },
    }
}

/// Applies a plain, position-keeping `GroupReceive`: replaces a known group
/// whose announced position equals its stored one (a rename), or appends an
/// unknown group announced at the end of the order. Returns false, leaving
/// the list untouched, when the announced position would tear the dense
/// order.
pub fn group_update(groups: &mut Vec<Group>, g: Group) -> (ok: bool)
    requires
        groups_wf(old(groups)@),
    ensures
        groups_wf(final(groups)@),
        !ok ==> final(groups)@ == old(groups)@,
        ok && has_group(old(groups)@, g.id) ==> exists|oi: int|
            {
                &&& 0 <= oi < old(groups)@.len()
                &&& old(groups)@[oi].id == g.id
                &&& final(groups)@ == old(groups)@.update(oi, g)
            },
        ok && !has_group(old(groups)@, g.id) ==> final(groups)@ == old(groups)@.push(g),
        has_group(old(groups)@, g.id) ==> (ok <==> exists|oi: int|
            0 <= oi < old(groups)@.len() && old(groups)@[oi].id == g.id && old(groups)@[oi].pos
                == g.pos),
        !has_group(old(groups)@, g.id) ==> (ok <==> g.pos == old(groups)@.len()),
{
    match find_group_index(groups, g.id) {
        Some(oi) => {
            if groups[oi].pos == g.pos {
                groups[oi] = g;
                proof {
                    assert forall|i: int, j: int|
                        0 <= i < j < groups@.len() implies #[trigger] groups@[i].pos
                        != #[trigger] groups@[j].pos by {
                        assert(old(groups)@[i].pos != old(groups)@[j].pos);
                    }
                }
                true
            } else {
                proof {
                    assert forall|i: int|
                        0 <= i < old(groups)@.len() && old(groups)@[i].id == g.id implies !(old(
                        groups,
                    )@[i].pos == g.pos) by {}
                }
                false
            }
        },
        None => {
            if g.pos == groups.len() {
                groups.push(g);
                true
            } else {
                false
            }
        },
    }
}

/// Applies a `GroupDeleteReceive`: closes the gap left at the departed
/// group's position, then removes it. An unknown identity is a no-op.
#[verifier::rlimit(100)]
#[verifier::spinoff_prover]
pub fn group_delete(groups: &mut Vec<Group>, id: usize) -> (found: bool)
    requires
        groups_wf(old(groups)@),
    ensures
        groups_wf(final(groups)@),
        found <==> has_group(old(groups)@, id),
        !found ==> final(groups)@ == old(groups)@,
        found ==> exists|oi: int|
            {
                &&& 0 <= oi < old(groups)@.len()
                &&& old(groups)@[oi].id == id
                &&& final(groups)@ == close_groups_above(
                    old(groups)@,
                    old(groups)@[oi].pos,
                ).remove(oi)
            },
{
    match find_group_index(groups, id) {
        Some(oi) => {
            let d = groups[oi].pos;
            let mut k: usize = 0;
            while k < groups.len()
                invariant
                    groups@.len() == old(groups)@.len(),
                    k <= groups@.len(),
                    oi < groups@.len(),
                    old(groups)@[oi as int].id == id,
                    old(groups)@[oi as int].pos == d,
                    forall|t: int|
                        0 <= t < groups@.len() ==> #[trigger] groups@[t].id == old(groups)@[t].id
                            && groups@[t].name == old(groups)@[t].name,
                    forall|t: int|
                        0 <= t < k ==> #[trigger] groups@[t].pos == (if old(groups)@[t].pos > d {
                            (old(groups)@[t].pos - 1) as usize
                        } else {
                            old(groups)@[t].pos
                        }),
                    forall|t: int|
                        k <= t < groups@.len() ==> #[trigger] groups@[t].pos == old(groups)@[t].pos,
                decreases groups@.len() - k,
            {
                let pos = groups[k].pos;
                if pos > d {
                    groups[k].pos = pos - 1;
                }
                proof {
                    assert forall|t: int|
                        0 <= t < groups@.len() implies #[trigger] groups@[t].id == old(
                        groups,
                    )@[t].id && groups@[t].name == old(groups)@[t].name by {
                        assert(groups@[t].id == old(groups)@[t].id);
                        assert(groups@[t].name == old(groups)@[t].name);
                    }
                }
                k += 1;
            }
            let ghost shifted = groups@;
            groups.remove(oi);
            proof {
                let oiv = oi as int;
                let m = close_groups_above(old(groups)@, d);
                assert forall|t: int| 0 <= t < shifted.len() implies shifted[t] == m[t] by {
                    assert(shifted[t].id == old(groups)@[t].id);
                    assert(shifted[t].name == old(groups)@[t].name);
                    assert(shifted[t] =~= m[t]);
                }
                assert(shifted =~= m);
                assert(groups@ == shifted.remove(oiv));
                assert forall|i: int, j: int|
                    0 <= i < j < groups@.len() implies #[trigger] groups@[i].pos
                    != #[trigger] groups@[j].pos by {
                    let si = if i < oiv {
                        i
                    } else {
                        i + 1
                    };
                    let sj = if j < oiv {
                        j
                    } else {
                        j + 1
                    };
                    assert(groups@[i] == shifted[si]);
                    assert(groups@[j] == shifted[sj]);
                    assert(old(groups)@[si].pos != old(groups)@[sj].pos);
                    assert(old(groups)@[si].pos != d);
                    assert(old(groups)@[sj].pos != d);
                }
                assert forall|i: int| 0 <= i < groups@.len() implies #[trigger] groups@[i].pos
                    < groups@.len() by {
                    let si = if i < oiv {
                        i
                    } else {
                        i + 1
                    };
                    assert(groups@[i] == shifted[si]);
                    assert(old(groups)@[si].pos != d);
                    assert(old(groups)@[si].pos < old(groups)@.len());
                }
            }
            true
        },
        None => false,
    }
}

/// The set of ranks held by live groups.
pub open spec fn group_positions(gs: Seq<Group>) -> Set<int> {
    Set::new(|p: int| exists|i: int| 0 <= i < gs.len() && #[trigger] gs[i].pos == p)
}

/// Law: the dense-order invariant means the positions of `n` live groups are
/// exactly `{0, 1, ..., n-1}` — every rank below the count is taken by a
/// group, and no rank at or above it by any.
pub proof fn lemma_group_positions_dense(gs: Seq<Group>)
    requires
        groups_wf(gs),
    ensures
        group_positions(gs) == set_int_range(0, gs.len() as int),
{
    let ps = Seq::new(gs.len(), |i: int| gs[i].pos as int);
    assert(ps.no_duplicates());
    ps.unique_seq_to_set();
    let range = set_int_range(0, gs.len() as int);
    lemma_int_range(0, gs.len() as int);
    assert(ps.to_set().subset_of(range)) by {
        assert forall|x: int| ps.to_set().contains(x) implies range.contains(x) by {
            let i = choose|i: int| 0 <= i < ps.len() && ps[i] == x;
            assert(gs[i].pos < gs.len());
        }
    }
    lemma_subset_equality(ps.to_set(), range);
    assert(group_positions(gs) =~= ps.to_set()) by {
        assert forall|x: int| #[trigger] ps.to_set().contains(x) implies group_positions(
            gs,
        ).contains(x) by {
            let i = choose|i: int| 0 <= i < ps.len() && ps[i] == x;
            assert(gs[i].pos == x);
        }
        assert forall|x: int| #[trigger] group_positions(gs).contains(x) implies ps.to_set()
            .contains(x) by {
            let i = choose|i: int| 0 <= i < gs.len() && gs[i].pos == x;
            assert(ps[i] == x);
        }
    }
}

} // verus!
