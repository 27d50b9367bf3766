use vstd::prelude::*;

use itertools::Itertools;

use crate::buffer::Input;
use crate::crablet::Crablet;
use crate::factory::{
    lemma_grown_monotone, lemma_grown_refl, lemma_grown_trans, lemma_input_slot, lemma_output_slot,
    lemma_reserve_input_grows, lemma_reserve_output_grows, Factory,
};
use crate::geom::{dist_sq, offset_spec, Bounds2i, Vec2i};
use crate::resource::Resource;
use crate::state::{GameState, RESOURCE_RESERVATION_TTL_MAJOR_TICKS};
use crate::stats::Event;
use crate::task::Task;

verus! {

/// An agent that can take new work: not travelling, no task, nothing carried.
pub open spec fn available(c: Crablet) -> bool {
    &&& !(c.navigation.spec_status() is Travelling)
    &&& c.task is Idle
    &&& c.cargo is None
}

/// An agent could carry `r` from factory `s` to factory `d` now: distinct factories, room
/// to promise at `d`, an unpromised item at `s`, and not from one pile to another.
pub open spec fn can_transfer(fs: Seq<Factory>, s: int, d: int, r: Resource) -> bool {
    &&& 0 <= s < fs.len()
    &&& 0 <= d < fs.len()
    &&& s != d
    &&& fs[d].spec_can_reserve_input(r)
    &&& fs[s].spec_can_reserve_output(r)
    &&& !(fs[s].spec_is_pile() && fs[d].spec_is_pile())
}

/// No factory can supply `r` to factory `d` now.
pub open spec fn blocked(fs: Seq<Factory>, d: int, r: Resource) -> bool {
    forall|s: int| !#[trigger] can_transfer(fs, s, d, r)
}

/// `c` is `o` sent to fetch `r` from factory `s` and bring it to factory `d`.
pub open spec fn pickup_between(fs: Seq<Factory>, c: Crablet, o: Crablet, s: int, d: int, r: Resource) -> bool {
    &&& 0 <= s < fs.len()
    &&& 0 <= d < fs.len()
    &&& s != d
    &&& c == (Crablet {
        task: Task::FactoryPickUp { resource: r, from: fs[s].position, to: fs[d].position },
        ..o
    })
}

/// `c` is the available agent `o`, sent to fetch a resource from one factory for another.
pub open spec fn assigned_pickup(fs: Seq<Factory>, c: Crablet, o: Crablet) -> bool {
    available(o) && exists|s: int, d: int, r: Resource| #[trigger] pickup_between(fs, c, o, s, d, r)
}

proof fn lemma_transfer_monotone(n: &GameState, o: &GameState, s: int, d: int, r: Resource)
    requires
        n.factories_grown_from(o),
        can_transfer(n.factories@, s, d, r),
    ensures
        can_transfer(o.factories@, s, d, r),
{
    lemma_grown_monotone(&n.factories@[s], &o.factories@[s], r);
    lemma_grown_monotone(&n.factories@[d], &o.factories@[d], r);
}

fn is_available(c: &Crablet) -> (r: bool)
    ensures
        r == available(*c),
{
    c.navigation.status().is_idle() && c.task.is_none() && c.cargo.is_none()
}

/// Indices of the available agents, ascending.
fn available_crabs(crablets: &Vec<Crablet>) -> (r: Vec<usize>)
    ensures
        forall|k: int| 0 <= k < r@.len() ==> #[trigger] r@[k] < crablets@.len(),
        forall|a: int, b: int| 0 <= a < b < r@.len() ==> r@[a] < r@[b],
        forall|c: int| 0 <= c < crablets@.len() ==> (available(#[trigger] crablets@[c]) <==> r@.contains(c as usize)),
{
    let mut r: Vec<usize> = Vec::new();
    let mut i: usize = 0;
    while i < crablets.len()
        invariant
            i <= crablets@.len(),
            forall|k: int| 0 <= k < r@.len() ==> #[trigger] r@[k] < i,
            forall|a: int, b: int| 0 <= a < b < r@.len() ==> r@[a] < r@[b],
            forall|c: int| 0 <= c < i ==> (available(#[trigger] crablets@[c]) <==> r@.contains(c as usize)),
        decreases crablets@.len() - i,
    {
        let ghost prev = r@;
        if is_available(&crablets[i]) {
            r.push(i);
        }
        proof {
            assert forall|c: int| 0 <= c <= i implies (available(#[trigger] crablets@[c])
                <==> r@.contains(c as usize)) by {
                if r@.contains(c as usize) {
                    let k = choose|k: int| 0 <= k < r@.len() && r@[k] == c as usize;
                    if k < prev.len() {
                        assert(prev[k] == c as usize);
                    }
                }
                if c < i && prev.contains(c as usize) {
                    let k = choose|k: int| 0 <= k < prev.len() && prev[k] == c as usize;
                    assert(r@[k] == c as usize);
                }
                if c == i && available(crablets@[c]) {
                    assert(r@[r@.len() - 1] == i);
                }
            }
        }
        i = i + 1;
    }
    r
}

/// Relies on `itertools::Itertools::sorted_by_key`, a stable sort by the key picked from each
/// pair (its first field): the result holds the same pairs, ordered by key, and pairs with equal
/// keys keep their order, here that of their (strictly increasing) second fields.
#[verifier::external_body]
fn sorted_by_first(v: Vec<(u8, usize)>) -> (r: Vec<(u8, usize)>)
    requires
        forall|a: int, b: int| 0 <= a < b < v@.len() ==> v@[a].1 < v@[b].1,
    ensures
        r@.len() == v@.len(),
        forall|j: int| 0 <= j < r@.len() ==> v@.contains(#[trigger] r@[j]),
        forall|j: int| 0 <= j < v@.len() ==> r@.contains(#[trigger] v@[j]),
        forall|a: int, b: int|
            0 <= a < b < r@.len() ==> r@[a].0 < r@[b].0 || (r@[a].0 == r@[b].0 && r@[a].1 < r@[b].1),
{
    v.into_iter().sorted_by_key(|e| e.0).collect()
}

/// Every input slot with room beyond its promises, as `(factory, resource)`: factories by
/// descending priority, ties by descending index; a factory's inputs in order.
fn destinations_by_priority(fs: &Vec<Factory>) -> (r: Vec<(usize, Resource)>)
    ensures
        forall|k: int| 0 <= k < r@.len() ==> #[trigger] r@[k].0 < fs@.len(),
        forall|d: int, j: int|
            0 <= d < fs@.len() && 0 <= j < fs@[d].inputs@.len() && !fs@[d].inputs@[j].virtually_full()
                ==> r@.contains((d as usize, #[trigger] fs@[d].inputs@[j].resource)),
{
    let mut keys: Vec<(u8, usize)> = Vec::new();
    let mut i: usize = 0;
    while i < fs.len()
        invariant
            i <= fs@.len(),
            keys@.len() == i,
            forall|k: int| 0 <= k < i ==> #[trigger] keys@[k] == (fs@[k].priority, k as usize),
        decreases fs@.len() - i,
    {
        keys.push((fs[i].priority, i));
        i = i + 1;
    }
    let ghost ks = keys@;
    let order = sorted_by_first(keys);
    let mut r: Vec<(usize, Resource)> = Vec::new();
    let mut p: usize = order.len();
    while p > 0
        invariant
            p <= order@.len(),
            order@.len() == fs@.len(),
            ks.len() == fs@.len(),
            forall|k: int| 0 <= k < ks.len() ==> #[trigger] ks[k] == (fs@[k].priority, k as usize),
            forall|j: int| 0 <= j < order@.len() ==> ks.contains(#[trigger] order@[j]),
            forall|k: int| 0 <= k < r@.len() ==> #[trigger] r@[k].0 < fs@.len(),
            forall|q: int, j: int|
                p <= q < order@.len() && 0 <= j < fs@[order@[q].1 as int].inputs@.len()
                    && !fs@[order@[q].1 as int].inputs@[j].virtually_full() ==> r@.contains(
                    (order@[q].1, #[trigger] fs@[order@[q].1 as int].inputs@[j].resource),
                ),
        decreases p,
    {
        p = p - 1;
        let fi = order[p].1;
        proof {
            assert(ks.contains(order@[p as int]));
            let k = choose|k: int| 0 <= k < ks.len() && ks[k] == order@[p as int];
            assert(ks[k] == (fs@[k].priority, k as usize));
        }
        let f = &fs[fi];
        let ghost before = r@;
        let mut j: usize = 0;
        while j < f.inputs.len()
            invariant
                fi < fs@.len(),
                *f == fs@[fi as int],
                j <= f.inputs@.len(),
                forall|k: int| 0 <= k < before.len() ==> r@[k] == before[k],
                before.len() <= r@.len(),
                forall|k: int| 0 <= k < r@.len() ==> #[trigger] r@[k].0 < fs@.len(),
                forall|jj: int|
                    0 <= jj < j && !f.inputs@[jj].virtually_full() ==> r@.contains(
                        (fi, #[trigger] f.inputs@[jj].resource),
                    ),
            decreases f.inputs@.len() - j,
        {
            let ghost prev = r@;
            if !f.inputs[j].is_virtually_full() {
                r.push((fi, f.inputs[j].resource));
            }
            proof {
                assert forall|jj: int|
                    0 <= jj <= j && !f.inputs@[jj].virtually_full() implies r@.contains(
                    (fi, #[trigger] f.inputs@[jj].resource),
                ) by {
                    if jj < j {
                        let k = choose|k: int| 0 <= k < prev.len() && prev[k] == (fi, f.inputs@[jj].resource);
                        assert(r@[k] == prev[k]);
                    } else {
                        assert(r@[r@.len() - 1] == (fi, f.inputs@[j as int].resource));
                    }
                }
            }
            j = j + 1;
        }
        proof {
            assert forall|q: int, jj: int|
                p <= q < order@.len() && 0 <= jj < fs@[order@[q].1 as int].inputs@.len()
                    && !fs@[order@[q].1 as int].inputs@[jj].virtually_full() implies r@.contains(
                (order@[q].1, #[trigger] fs@[order@[q].1 as int].inputs@[jj].resource),
            ) by {
                if q > p {
                    let k = choose|k: int|
                        0 <= k < before.len() && before[k] == (
                            order@[q].1,
                            fs@[order@[q].1 as int].inputs@[jj].resource,
                        );
                    assert(r@[k] == before[k]);
                }
            }
        }
    }
    proof {
        assert forall|d: int, j: int|
            0 <= d < fs@.len() && 0 <= j < fs@[d].inputs@.len() && !fs@[d].inputs@[j].virtually_full()
                implies r@.contains((d as usize, #[trigger] fs@[d].inputs@[j].resource)) by {
            assert(ks[d] == (fs@[d].priority, d as usize));
            assert(order@.contains(ks[d]));
            let q = choose|q: int| 0 <= q < order@.len() && order@[q] == ks[d];
        }
    }
    r
}

/// Every output slot holding an unpromised item, as `(resource, factory)`, factories ascending.
fn reservable_sources(fs: &Vec<Factory>) -> (r: Vec<(Resource, usize)>)
    ensures
        forall|k: int| 0 <= k < r@.len() ==> #[trigger] r@[k].1 < fs@.len(),
        forall|s: int, j: int|
            0 <= s < fs@.len() && 0 <= j < fs@[s].outputs@.len() && !fs@[s].outputs@[j].virtually_empty()
                ==> r@.contains((#[trigger] fs@[s].outputs@[j].resource, s as usize)),
{
    let mut r: Vec<(Resource, usize)> = Vec::new();
    let mut i: usize = 0;
    while i < fs.len()
        invariant
            i <= fs@.len(),
            forall|k: int| 0 <= k < r@.len() ==> #[trigger] r@[k].1 < fs@.len(),
            forall|s: int, j: int|
                0 <= s < i && 0 <= j < fs@[s].outputs@.len() && !fs@[s].outputs@[j].virtually_empty()
                    ==> r@.contains((#[trigger] fs@[s].outputs@[j].resource, s as usize)),
        decreases fs@.len() - i,
    {
        let f = &fs[i];
        let ghost before = r@;
        let mut j: usize = 0;
        while j < f.outputs.len()
            invariant
                i < fs@.len(),
                *f == fs@[i as int],
                j <= f.outputs@.len(),
                forall|k: int| 0 <= k < before.len() ==> r@[k] == before[k],
                before.len() <= r@.len(),
                forall|k: int| 0 <= k < r@.len() ==> #[trigger] r@[k].1 < fs@.len(),
                forall|jj: int|
                    0 <= jj < j && !f.outputs@[jj].virtually_empty() ==> r@.contains(
                        (#[trigger] f.outputs@[jj].resource, i),
                    ),
            decreases f.outputs@.len() - j,
        {
            let ghost prev = r@;
            if !f.outputs[j].is_vitrually_empty() {
                r.push((f.outputs[j].resource, i));
            }
            proof {
                assert forall|jj: int|
                    0 <= jj <= j && !f.outputs@[jj].virtually_empty() implies r@.contains(
                    (#[trigger] f.outputs@[jj].resource, i),
                ) by {
                    if jj < j {
                        let k = choose|k: int| 0 <= k < prev.len() && prev[k] == (f.outputs@[jj].resource, i);
                        assert(r@[k] == prev[k]);
                    } else {
                        assert(r@[r@.len() - 1] == (f.outputs@[j as int].resource, i));
                    }
                }
            }
            j = j + 1;
        }
        proof {
            assert forall|s: int, jj: int|
                0 <= s <= i && 0 <= jj < fs@[s].outputs@.len() && !fs@[s].outputs@[jj].virtually_empty()
                    implies r@.contains((#[trigger] fs@[s].outputs@[jj].resource, s as usize)) by {
                if s < i {
                    let k = choose|k: int|
                        0 <= k < before.len() && before[k] == (fs@[s].outputs@[jj].resource, s as usize);
                    assert(r@[k] == before[k]);
                }
            }
        }
        i = i + 1;
    }
    r
}

/// The first listed source of `resource` that can supply factory `dst_i` now.
fn find_src_for(fs: &Vec<Factory>, sources: &Vec<(Resource, usize)>, resource: Resource, dst_i: usize) -> (r: Option<usize>)
    requires
        dst_i < fs@.len(),
        forall|k: int| 0 <= k < sources@.len() ==> #[trigger] sources@[k].1 < fs@.len(),
    ensures
        match r {
            Some(s) => can_transfer(fs@, s as int, dst_i as int, resource),
            None => forall|k: int|
                0 <= k < sources@.len() && #[trigger] sources@[k].0 == resource ==> !can_transfer(
                    fs@,
                    sources@[k].1 as int,
                    dst_i as int,
                    resource,
                ) || !fs@[dst_i as int].spec_can_reserve_input(resource),
        },
{
    if !fs[dst_i].can_reserve_input(resource) {
        return None;
    }
    let dst_pile = fs[dst_i].is_pile();
    let mut k: usize = 0;
    while k < sources.len()
        invariant
            dst_i < fs@.len(),
            dst_pile == fs@[dst_i as int].spec_is_pile(),
            fs@[dst_i as int].spec_can_reserve_input(resource),
            forall|k: int| 0 <= k < sources@.len() ==> #[trigger] sources@[k].1 < fs@.len(),
            k <= sources@.len(),
            forall|kk: int|
                0 <= kk < k && #[trigger] sources@[kk].0 == resource ==> !can_transfer(
                    fs@,
                    sources@[kk].1 as int,
                    dst_i as int,
                    resource,
                ),
        decreases sources@.len() - k,
    {
        let (res, i) = sources[k];
        if res == resource && i != dst_i && fs[i].can_reserve_output(resource) && !(fs[i].is_pile()
            && dst_pile) {
            return Some(i);
        }
        k = k + 1;
    }
    None
}

/// One assignment of the factory pass: available agent `c` is sent to fetch `r` from factory `s`
/// for factory `d`, a transfer that can be made now; exactly one item of `s`'s output and one
/// slot of `d`'s input for `r` are promised, and nothing else changes.
pub open spec fn pickup_assigned(n: &GameState, o: &GameState, c: int, s: int, d: int, r: Resource) -> bool {
    let os = o.factories@[s].output_slot(r)->0;
    let is = o.factories@[d].input_slot(r)->0;
    &&& 0 <= c < o.crablets@.len()
    &&& available(o.crablets@[c])
    &&& can_transfer(o.factories@, s, d, r)
    &&& n.crablets@ == o.crablets@.update(
        c,
        Crablet {
            task: Task::FactoryPickUp { resource: r, from: o.factories@[s].position, to: o.factories@[d].position },
            ..o.crablets@[c]
        },
    )
    &&& n.factories@.len() == o.factories@.len()
    &&& forall|g: int| 0 <= g < n.factories@.len() && g != s && g != d ==> #[trigger] n.factories@[g] == o.factories@[g]
    &&& n.factories@[s].output_set_from(&o.factories@[s], os, o.factories@[s].outputs@[os].spec_reserve_item().1)
    &&& n.factories@[d].input_set_from(&o.factories@[d], is, o.factories@[d].inputs@[is].spec_reserve_slot().1)
    &&& n.same_world(o)
}

/// Some assignment of the factory pass leads from `o` to `n`.
pub open spec fn pickup_step(n: &GameState, o: &GameState) -> bool {
    exists|c: int, s: int, d: int, r: Resource| #[trigger] pickup_assigned(n, o, c, s, d, r)
}

/// Sends idle agents to carry items from factory outputs to factory inputs.
///
/// Only available agents (not travelling, no task, nothing carried) get work, each a
/// `FactoryPickUp` between two distinct factories; apart from those tasks, the pass only raises
/// reservation counters of factory buffers. The pass is greedy and complete: if an agent is
/// still available afterwards, no factory can supply any other with anything.
pub fn tick_give_work_factories(gs: &mut GameState)
    requires
        old(gs).wf(),
    ensures
        factories_pass(final(gs), old(gs)),
{
    let ghost nf = gs.factories.len();
    let ghost nc = gs.crablets.len();
    let mut crab_ids = available_crabs(&gs.crablets);
    let ghost none_available = crab_ids@.len() == 0;
    let ghost all_busy = forall|c: int| 0 <= c < old(gs).crablets@.len() ==> !available(#[trigger] old(gs).crablets@[c]);
    proof {
        if all_busy && crab_ids@.len() > 0 {
            let c0 = crab_ids@[0] as int;
            assert(crab_ids@.contains(crab_ids@[0]));
            assert(available(gs.crablets@[c0]));
            assert(!available(old(gs).crablets@[c0]));
        }
    }
    let ghost mut trace: Seq<GameState> = seq![*gs];
    let destinations = destinations_by_priority(&gs.factories);
    let sources = reservable_sources(&gs.factories);
    proof {
        assert forall|f: int| 0 <= f < gs.factories@.len() implies (#[trigger] gs.factories@[f]).grown_from(&old(gs).factories@[f]) by {
            lemma_grown_refl(&gs.factories@[f]);
        }
    }
    let mut p: usize = 0;
    while p < destinations.len()
        invariant
            gs.wf(),
            gs.same_world(old(gs)),
            gs.factories_grown_from(old(gs)),
            gs.crablets@.len() == old(gs).crablets@.len(),
            trace.len() >= 1,
            trace[0] == *old(gs),
            trace.last() == *gs,
            forall|k: int| 0 <= k < trace.len() - 1 ==> #[trigger] pickup_step(&trace[k + 1], &trace[k]),
            none_available ==> gs.factories == old(gs).factories && gs.crablets == old(gs).crablets && crab_ids@.len() == 0,
            all_busy ==> none_available,
            all_busy == forall|c: int| 0 <= c < old(gs).crablets@.len() ==> !available(#[trigger] old(gs).crablets@[c]),
            old(gs).factories@.len() == nf <= usize::MAX,
            old(gs).crablets@.len() == nc <= usize::MAX,
            forall|k: int| 0 <= k < destinations@.len() ==> #[trigger] destinations@[k].0 < gs.factories@.len(),
            forall|d: int, j: int|
                0 <= d < old(gs).factories@.len() && 0 <= j < old(gs).factories@[d].inputs@.len()
                    && !old(gs).factories@[d].inputs@[j].virtually_full() ==> destinations@.contains(
                    (d as usize, #[trigger] old(gs).factories@[d].inputs@[j].resource),
                ),
            forall|k: int| 0 <= k < sources@.len() ==> #[trigger] sources@[k].1 < gs.factories@.len(),
            forall|s: int, j: int|
                0 <= s < old(gs).factories@.len() && 0 <= j < old(gs).factories@[s].outputs@.len()
                    && !old(gs).factories@[s].outputs@[j].virtually_empty() ==> sources@.contains(
                    (#[trigger] old(gs).factories@[s].outputs@[j].resource, s as usize),
                ),
            forall|k: int| 0 <= k < crab_ids@.len() ==> #[trigger] crab_ids@[k] < gs.crablets@.len(),
            forall|a: int, b: int| 0 <= a < b < crab_ids@.len() ==> crab_ids@[a] < crab_ids@[b],
            forall|c: int|
                0 <= c < gs.crablets@.len() ==> (available(#[trigger] gs.crablets@[c])
                    <==> crab_ids@.contains(c as usize)),
            forall|c: int|
                0 <= c < gs.crablets@.len() ==> #[trigger] gs.crablets@[c] == old(gs).crablets@[c]
                    || assigned_pickup(old(gs).factories@, gs.crablets@[c], old(gs).crablets@[c]),
            p <= destinations@.len(),
            forall|q: int|
                0 <= q < p ==> crab_ids@.len() == 0 || blocked(
                    gs.factories@,
                    #[trigger] destinations@[q].0 as int,
                    destinations@[q].1,
                ),
        decreases destinations@.len() - p,
    {
        let dst_i = destinations[p].0;
        let resource = destinations[p].1;
        loop
            invariant
                gs.wf(),
                gs.same_world(old(gs)),
                gs.factories_grown_from(old(gs)),
                gs.crablets@.len() == old(gs).crablets@.len(),
                dst_i < gs.factories@.len(),
                trace.len() >= 1,
                trace[0] == *old(gs),
                trace.last() == *gs,
                forall|k: int| 0 <= k < trace.len() - 1 ==> #[trigger] pickup_step(&trace[k + 1], &trace[k]),
                none_available ==> gs.factories == old(gs).factories && gs.crablets == old(gs).crablets && crab_ids@.len() == 0,
                all_busy ==> none_available,
                all_busy == forall|c: int| 0 <= c < old(gs).crablets@.len() ==> !available(#[trigger] old(gs).crablets@[c]),
                old(gs).factories@.len() == nf <= usize::MAX,
                old(gs).crablets@.len() == nc <= usize::MAX,
                p < destinations@.len(),
                destinations@[p as int] == (dst_i, resource),
                forall|k: int| 0 <= k < sources@.len() ==> #[trigger] sources@[k].1 < gs.factories@.len(),
                forall|s: int, j: int|
                    0 <= s < old(gs).factories@.len() && 0 <= j < old(gs).factories@[s].outputs@.len()
                        && !old(gs).factories@[s].outputs@[j].virtually_empty() ==> sources@.contains(
                        (#[trigger] old(gs).factories@[s].outputs@[j].resource, s as usize),
                    ),
                forall|k: int| 0 <= k < crab_ids@.len() ==> #[trigger] crab_ids@[k] < gs.crablets@.len(),
                forall|a: int, b: int| 0 <= a < b < crab_ids@.len() ==> crab_ids@[a] < crab_ids@[b],
                forall|c: int|
                    0 <= c < gs.crablets@.len() ==> (available(#[trigger] gs.crablets@[c])
                        <==> crab_ids@.contains(c as usize)),
                forall|c: int|
                    0 <= c < gs.crablets@.len() ==> #[trigger] gs.crablets@[c] == old(gs).crablets@[c]
                        || assigned_pickup(old(gs).factories@, gs.crablets@[c], old(gs).crablets@[c]),
                forall|q: int|
                    0 <= q < p ==> crab_ids@.len() == 0 || blocked(
                        gs.factories@,
                        #[trigger] destinations@[q].0 as int,
                        destinations@[q].1,
                    ),
            ensures
                gs.wf(),
                trace.len() >= 1,
                trace[0] == *old(gs),
                trace.last() == *gs,
                forall|k: int| 0 <= k < trace.len() - 1 ==> #[trigger] pickup_step(&trace[k + 1], &trace[k]),
                none_available ==> gs.factories == old(gs).factories && gs.crablets == old(gs).crablets && crab_ids@.len() == 0,
                all_busy ==> none_available,
                all_busy == forall|c: int| 0 <= c < old(gs).crablets@.len() ==> !available(#[trigger] old(gs).crablets@[c]),
                gs.same_world(old(gs)),
                gs.factories_grown_from(old(gs)),
                gs.crablets@.len() == old(gs).crablets@.len(),
                forall|k: int| 0 <= k < crab_ids@.len() ==> #[trigger] crab_ids@[k] < gs.crablets@.len(),
                forall|a: int, b: int| 0 <= a < b < crab_ids@.len() ==> crab_ids@[a] < crab_ids@[b],
                forall|c: int|
                    0 <= c < gs.crablets@.len() ==> (available(#[trigger] gs.crablets@[c])
                        <==> crab_ids@.contains(c as usize)),
                forall|c: int|
                    0 <= c < gs.crablets@.len() ==> #[trigger] gs.crablets@[c] == old(gs).crablets@[c]
                        || assigned_pickup(old(gs).factories@, gs.crablets@[c], old(gs).crablets@[c]),
                forall|q: int|
                    0 <= q <= p ==> crab_ids@.len() == 0 || blocked(
                        gs.factories@,
                        #[trigger] destinations@[q].0 as int,
                        destinations@[q].1,
                    ),
            decreases crab_ids@.len(),
        {
            let ghost before = *gs;
            let src = find_src_for(&gs.factories, &sources, resource, dst_i);
            match src {
                None => {
                    proof {
                        assert forall|s: int| !#[trigger] can_transfer(gs.factories@, s, dst_i as int, resource) by {
                            if can_transfer(gs.factories@, s, dst_i as int, resource) {
                                lemma_transfer_monotone(gs, old(gs), s, dst_i as int, resource);
                                lemma_output_slot(&old(gs).factories@[s], resource);
                                let o = old(gs).factories@[s].output_slot(resource)->0;
                                assert(old(gs).factories@[s].outputs@[o].resource == resource);
                                assert(0 <= o < old(gs).factories@[s].outputs@.len());
                                assert(!old(gs).factories@[s].outputs@[o].virtually_empty());
                                assert(sources@.contains((old(gs).factories@[s].outputs@[o].resource, s as usize)));
                                let k = choose|k: int|
                                    0 <= k < sources@.len() && sources@[k] == (
                                        old(gs).factories@[s].outputs@[o].resource,
                                        s as usize,
                                    );
                                assert(sources@[k].0 == resource);
                                assert(sources@[k].1 as int == s);
                                assert(!can_transfer(gs.factories@, sources@[k].1 as int, dst_i as int, resource));
                            }
                        }
                        assert forall|q: int|
                            0 <= q <= p implies crab_ids@.len() == 0 || blocked(
                            gs.factories@,
                            #[trigger] destinations@[q].0 as int,
                            destinations@[q].1,
                        ) by {
                            if q == p {
                                assert(destinations@[q] == (dst_i, resource));
                            }
                        }
                    }
                    break ;
                },
                Some(src_i) => {
                    let ghost ids = crab_ids@;
                    match crab_ids.pop() {
                        None => {
                            break ;
                        },
                        Some(crab_id) => {
                            let ghost start = *gs;
                            let _ = gs.factories[src_i].reserve_output(resource);
                            let ghost mid = *gs;
                            let _ = gs.factories[dst_i].reserve_input(resource);
                            let from = gs.factories[src_i].position;
                            let to = gs.factories[dst_i].position;
                            let mut c = gs.crablets[crab_id];
                            c.task = Task::FactoryPickUp { resource, from, to };
                            gs.crablets.set(crab_id, c);
                            proof {
                                let si = src_i as int;
                                let di = dst_i as int;
                                assert(before.factories@[si].wf());
                                assert(mid.factories@[di] == before.factories@[di]);
                                lemma_reserve_output_grows(&mid.factories@[si], &before.factories@[si], resource);
                                lemma_reserve_input_grows(&gs.factories@[di], &mid.factories@[di], resource);
                                assert forall|f: int| 0 <= f < gs.factories@.len() implies (#[trigger] gs.factories@[f]).grown_from(&before.factories@[f]) && gs.factories@[f].wf() by {
                                    if f == si {
                                        assert(gs.factories@[f] == mid.factories@[f]);
                                    } else if f != di {
                                        assert(gs.factories@[f] == before.factories@[f]);
                                        assert(before.factories@[f].wf());
                                        lemma_grown_refl(&gs.factories@[f]);
                                    }
                                }
                                assert(gs.factories_grown_from(&before));
                                assert forall|f: int| 0 <= f < gs.factories@.len() implies (#[trigger] gs.factories@[f]).grown_from(&old(gs).factories@[f]) by {
                                    lemma_grown_trans(&gs.factories@[f], &before.factories@[f], &old(gs).factories@[f]);
                                }
                                let ci = crab_id as int;
                                assert(ids[ids.len() - 1] == crab_id);
                                assert(ids.contains(crab_id));
                                assert(available(before.crablets@[ci]));
                                let c_old = old(gs).crablets@[ci];
                                assert(before.crablets@[ci] == c_old);
                                assert(gs.factories@[si].position == old(gs).factories@[si].position);
                                assert(gs.factories@[di].position == old(gs).factories@[di].position);
                                assert(pickup_between(old(gs).factories@, gs.crablets@[ci], c_old, si, di, resource));
                                assert forall|cc: int| 0 <= cc < gs.crablets@.len() implies (available(#[trigger] gs.crablets@[cc])
                                    <==> crab_ids@.contains(cc as usize)) by {
                                    if cc == ci {
                                        if crab_ids@.contains(cc as usize) {
                                            let k = choose|k: int| 0 <= k < crab_ids@.len() && crab_ids@[k] == cc as usize;
                                            assert(ids[k] < ids[ids.len() - 1]);
                                        }
                                    } else {
                                        assert(gs.crablets@[cc] == before.crablets@[cc]);
                                        assert(crab_ids@ == ids.drop_last());
                                        if ids.contains(cc as usize) {
                                            let k = choose|k: int| 0 <= k < ids.len() && ids[k] == cc as usize;
                                            assert(k < ids.len() - 1);
                                            assert(crab_ids@[k] == cc as usize);
                                        }
                                        if crab_ids@.contains(cc as usize) {
                                            let k = choose|k: int| 0 <= k < crab_ids@.len() && crab_ids@[k] == cc as usize;
                                            assert(ids[k] == cc as usize);
                                        }
                                    }
                                }
                                assert forall|cc: int| 0 <= cc < gs.crablets@.len() implies #[trigger] gs.crablets@[cc] == old(gs).crablets@[cc]
                                    || assigned_pickup(old(gs).factories@, gs.crablets@[cc], old(gs).crablets@[cc]) by {
                                    if cc != ci {
                                        assert(gs.crablets@[cc] == before.crablets@[cc]);
                                    }
                                }
                                lemma_output_slot(&start.factories@[si], resource);
                                lemma_input_slot(&start.factories@[di], resource);
                                assert(pickup_assigned(gs, &start, ci, si, di, resource));
                                let ghost_prev = trace;
                                trace = trace.push(*gs);
                                assert forall|k: int| 0 <= k < trace.len() - 1 implies #[trigger] pickup_step(&trace[k + 1], &trace[k]) by {
                                    if k < ghost_prev.len() - 1 {
                                        assert(trace[k + 1] == ghost_prev[k + 1]);
                                        assert(trace[k] == ghost_prev[k]);
                                    } else {
                                        assert(trace[k] == start);
                                    }
                                }
                                assert forall|q: int| 0 <= q < p implies crab_ids@.len() == 0 || blocked(
                                    gs.factories@,
                                    #[trigger] destinations@[q].0 as int,
                                    destinations@[q].1,
                                ) by {
                                    let dq = destinations@[q].0 as int;
                                    let rq = destinations@[q].1;
                                    assert(blocked(before.factories@, dq, rq));
                                    assert forall|s: int| !#[trigger] can_transfer(gs.factories@, s, dq, rq) by {
                                        if can_transfer(gs.factories@, s, dq, rq) {
                                            lemma_transfer_monotone(gs, &before, s, dq, rq);
                                        }
                                    }
                                }
                            }
                        },
                    }
                },
            }
        }
        p = p + 1;
    }
    proof {
        if exists|c: int| 0 <= c < gs.crablets@.len() && available(#[trigger] gs.crablets@[c]) {
            let c = choose|c: int| 0 <= c < gs.crablets@.len() && available(#[trigger] gs.crablets@[c]);
            assert(crab_ids@.contains(c as usize));
            assert forall|s: int, d: int, r: Resource| !#[trigger] can_transfer(gs.factories@, s, d, r) by {
                if can_transfer(gs.factories@, s, d, r) {
                    lemma_grown_monotone(&gs.factories@[d], &old(gs).factories@[d], r);
                    lemma_input_slot(&gs.factories@[d], r);
                    let i = gs.factories@[d].input_slot(r)->0;
                    assert(gs.factories@[d].inputs@[i] == (Input {
                        reserved_slots: gs.factories@[d].inputs@[i].reserved_slots,
                        ..old(gs).factories@[d].inputs@[i]
                    }));
                    assert(!old(gs).factories@[d].inputs@[i].virtually_full());
                    assert(0 <= i < old(gs).factories@[d].inputs@.len());
                    assert(destinations@.contains((d as usize, old(gs).factories@[d].inputs@[i].resource)));
                    let q = choose|q: int| 0 <= q < destinations@.len() && destinations@[q] == (d as usize, r);
                    assert(crab_ids@.len() > 0);
                    assert(blocked(gs.factories@, destinations@[q].0 as int, destinations@[q].1));
                    assert(destinations@[q].0 as int == d);
                    assert(!can_transfer(gs.factories@, s, d, r));
                }
            }
        }
    }
    proof {
        assert(trace.len() >= 1 && trace[0] == *old(gs) && trace.last() == *gs);
    }
}

/// `a` comes before `b` row by row.
pub open spec fn row_before(a: Vec2i, b: Vec2i) -> bool {
    a.y < b.y || (a.y == b.y && a.x < b.x)
}

/// The square searched for work around an agent's home anchor.
pub open spec fn search_area(home: Vec2i, radius: i32) -> Bounds2i {
    Bounds2i {
        min: offset_spec(home, -radius, -radius),
        max: offset_spec(home, radius as int, radius as int),
    }
}

/// An unclaimed ground resource in `area`.
pub open spec fn harvest_candidate(gs: &GameState, area: Bounds2i, q: Vec2i) -> bool {
    &&& area.contains_spec(q)
    &&& gs.reservation(q) == 0
    &&& gs.resource_at(q) is Some
}

/// `p` is the unclaimed ground resource in `area` nearest to `home`; the first row by row among
/// equally near ones.
pub open spec fn nearest_resource(gs: &GameState, area: Bounds2i, home: Vec2i, p: Vec2i) -> bool {
    &&& harvest_candidate(gs, area, p)
    &&& forall|q: Vec2i|
        #[trigger] harvest_candidate(gs, area, q) && q != p ==> dist_sq(q, home) > dist_sq(p, home)
            || (dist_sq(q, home) == dist_sq(p, home) && row_before(p, q))
}

/// A factory in `area` with room to promise for `r`.
pub open spec fn factory_candidate(gs: &GameState, area: Bounds2i, r: Resource, f: int) -> bool {
    &&& 0 <= f < gs.factories@.len()
    &&& gs.factories@[f].spec_can_reserve_input(r)
    &&& area.contains_spec(gs.factories@[f].position)
}

/// `f` is the factory in `area` that can take `r` nearest to `home`; the first by index among
/// equally near ones.
pub open spec fn nearest_factory(gs: &GameState, area: Bounds2i, home: Vec2i, r: Resource, f: int) -> bool {
    &&& factory_candidate(gs, area, r, f)
    &&& forall|g: int|
        #[trigger] factory_candidate(gs, area, r, g) && g != f ==> dist_sq(gs.factories@[g].position, home)
            > dist_sq(gs.factories@[f].position, home) || (dist_sq(gs.factories@[g].position, home)
            == dist_sq(gs.factories@[f].position, home) && f < g)
}

/// What agent `i` would be sent to harvest: the nearest claimable resource at `p` around its
/// home, and the nearest factory `f` around its home that can take it.
pub open spec fn harvest_choice(gs: &GameState, i: int, p: Vec2i, f: int) -> bool {
    let home = gs.crablets@[i].home_area;
    let area = search_area(home, gs.search_radius);
    &&& nearest_resource(gs, area, home, p)
    &&& nearest_factory(gs, area, home, gs.resource_at(p)->0, f)
}

/// The unclaimed ground resource in `area` nearest to `home`.
fn find_nearest_resource(gs: &GameState, area: Bounds2i, home: Vec2i) -> (r: Option<(Resource, Vec2i)>)
    requires
        gs.wf(),
    ensures
        match r {
            Some((res, p)) => nearest_resource(gs, area, home, p) && gs.resource_at(p) == Some(res),
            None => forall|q: Vec2i| !#[trigger] harvest_candidate(gs, area, q),
        },
{
    let size = gs.resources.size;
    let x0: i64 = if area.min.x < 0 { 0 } else { area.min.x as i64 };
    let y0: i64 = if area.min.y < 0 { 0 } else { area.min.y as i64 };
    let x1: i64 = if (area.max.x as i64) < size.x as i64 { area.max.x as i64 } else { size.x as i64 };
    let y1: i64 = if (area.max.y as i64) < size.y as i64 { area.max.y as i64 } else { size.y as i64 };
    let mut best: Option<(Resource, Vec2i)> = None;
    let mut best_dist: u128 = 0;
    let mut y: i64 = y0;
    while y < y1
        invariant
            gs.wf(),
            size == gs.resources.size,
            x0 >= area.min.x,
            x0 >= 0,
            x1 <= area.max.x,
            x1 <= size.x,
            y0 >= area.min.y,
            y0 >= 0,
            y1 <= area.max.y,
            y1 <= size.y,
            y0 <= y,
            y1 < y0 || y <= y1,
            forall|q: Vec2i| #[trigger] harvest_candidate(gs, area, q) ==> x0 <= q.x < x1 && y0 <= q.y < y1,
            match best {
                Some((res, p)) => {
                    &&& harvest_candidate(gs, area, p)
                    &&& gs.resource_at(p) == Some(res)
                    &&& p.y < y
                    &&& best_dist == dist_sq(p, home)
                    &&& forall|q: Vec2i|
                        #[trigger] harvest_candidate(gs, area, q) && q != p && q.y < y ==> dist_sq(q, home)
                            > dist_sq(p, home) || (dist_sq(q, home) == dist_sq(p, home) && row_before(p, q))
                },
                None => forall|q: Vec2i| #[trigger] harvest_candidate(gs, area, q) ==> q.y >= y,
            },
        decreases y1 - y,
    {
        let mut x: i64 = x0;
        while x < x1
            invariant
                gs.wf(),
                size == gs.resources.size,
                x0 >= area.min.x,
                x0 >= 0,
                x1 <= area.max.x,
                x1 <= size.x,
                y0 >= area.min.y,
                y0 >= 0,
                y1 <= area.max.y,
                y1 <= size.y,
                y0 <= y < y1,
                x0 <= x,
                x1 < x0 || x <= x1,
                forall|q: Vec2i| #[trigger] harvest_candidate(gs, area, q) ==> x0 <= q.x < x1 && y0 <= q.y < y1,
                match best {
                    Some((res, p)) => {
                        &&& harvest_candidate(gs, area, p)
                        &&& gs.resource_at(p) == Some(res)
                        &&& (p.y < y || (p.y == y && p.x < x))
                        &&& best_dist == dist_sq(p, home)
                        &&& forall|q: Vec2i|
                            #[trigger] harvest_candidate(gs, area, q) && q != p && (q.y < y || (q.y == y
                                && q.x < x)) ==> dist_sq(q, home) > dist_sq(p, home) || (dist_sq(q, home)
                                == dist_sq(p, home) && row_before(p, q))
                    },
                    None => forall|q: Vec2i|
                        #[trigger] harvest_candidate(gs, area, q) ==> q.y > y || (q.y == y && q.x >= x),
                },
            decreases x1 - x,
        {
            let c = Vec2i { x: x as i32, y: y as i32 };
            let claim = gs.resource_reservations.at_or_default(c);
            let here = gs.resources.at_or(c, None);
            if claim == 0 {
                if let Some(res) = here {
                    let d = c.distance_squared(home);
                    let better = match best {
                        None => true,
                        Some(_) => d < best_dist,
                    };
                    if better {
                        best = Some((res, c));
                        best_dist = d;
                    }
                }
            }
            x = x + 1;
        }
        y = y + 1;
    }
    best
}

/// The factory in `area` that can take `r` nearest to `home`.
fn find_nearest_factory(gs: &GameState, area: Bounds2i, home: Vec2i, r: Resource) -> (res: Option<usize>)
    ensures
        match res {
            Some(f) => nearest_factory(gs, area, home, r, f as int),
            None => forall|g: int| !#[trigger] factory_candidate(gs, area, r, g),
        },
{
    let mut best: Option<usize> = None;
    let mut best_dist: u128 = 0;
    let mut i: usize = 0;
    while i < gs.factories.len()
        invariant
            i <= gs.factories@.len(),
            match best {
                Some(f) => {
                    &&& f < i
                    &&& factory_candidate(gs, area, r, f as int)
                    &&& best_dist == dist_sq(gs.factories@[f as int].position, home)
                    &&& forall|g: int|
                        #[trigger] factory_candidate(gs, area, r, g) && g != f && g < i ==> dist_sq(
                            gs.factories@[g].position,
                            home,
                        ) > dist_sq(gs.factories@[f as int].position, home) || (dist_sq(
                            gs.factories@[g].position,
                            home,
                        ) == dist_sq(gs.factories@[f as int].position, home) && f < g)
                },
                None => forall|g: int| #[trigger] factory_candidate(gs, area, r, g) ==> g >= i,
            },
        decreases gs.factories@.len() - i,
    {
        let f = &gs.factories[i];
        if f.can_reserve_input(r) && area.contains(f.position) {
            let d = f.position.distance_squared(home);
            let better = match best {
                None => true,
                Some(_) => d < best_dist,
            };
            if better {
                best = Some(i);
                best_dist = d;
            }
        }
        i = i + 1;
    }
    best
}

proof fn lemma_nearest_resource_unique(gs: &GameState, area: Bounds2i, home: Vec2i, p: Vec2i, q: Vec2i)
    requires
        nearest_resource(gs, area, home, p),
        nearest_resource(gs, area, home, q),
    ensures
        p == q,
{
    if p != q {
        assert(harvest_candidate(gs, area, q));
        assert(harvest_candidate(gs, area, p));
    }
}

/// Agent `i` was sent to harvest the resource at `p` for factory `f`: its task, the claim on
/// `p`, one promised input slot of `f`, and one success counted; nothing else changed.
pub open spec fn harvest_assigned(n: &GameState, o: &GameState, i: int, p: Vec2i, f: int) -> bool {
    let r = o.resource_at(p)->0;
    let slot = o.factories@[f].input_slot(r)->0;
    &&& n.crablets@ == o.crablets@.update(
        i,
        Crablet {
            task: Task::Harvest { resource: r, from: p, to: o.factories@[f].position },
            ..o.crablets@[i]
        },
    )
    &&& n.resource_reservations.is_set_from(&o.resource_reservations, p, RESOURCE_RESERVATION_TTL_MAJOR_TICKS)
    &&& n.factories@.len() == o.factories@.len()
    &&& forall|g: int| 0 <= g < n.factories@.len() && g != f ==> #[trigger] n.factories@[g] == o.factories@[g]
    &&& n.factories@[f].input_set_from(&o.factories@[f], slot, o.factories@[f].inputs@[slot].spec_reserve_slot().1)
    &&& n.stats.inc_from(&o.stats, Event::GiveWorkOk)
}

/// Offers agent `i` harvesting work: the nearest unclaimed ground resource within the search
/// square around its home, for the nearest factory within that square that can take it. On
/// success the resource is claimed, an input slot promised, and the agent given a `Harvest`
/// task; otherwise only a failure is counted.
pub fn assign_harvest(gs: &mut GameState, i: usize) -> (r: bool)
    requires
        old(gs).wf(),
        i < old(gs).crablets@.len(),
    ensures
        final(gs).wf(),
        final(gs).same_setting(old(gs)),
        r == exists|p: Vec2i, f: int| #[trigger] harvest_choice(old(gs), i as int, p, f),
        r ==> exists|p: Vec2i, f: int|
            #[trigger] harvest_choice(old(gs), i as int, p, f) && harvest_assigned(final(gs), old(gs), i as int, p, f),
        !r ==> final(gs).crablets == old(gs).crablets && final(gs).factories == old(gs).factories
            && final(gs).resource_reservations == old(gs).resource_reservations && final(gs).stats.inc_from(
            &old(gs).stats,
            Event::GiveWorkErr,
        ),
{
    let home = gs.crablets[i].home_area;
    let area = Bounds2i::around(home, gs.search_radius);
    let found = find_nearest_resource(gs, area, home);
    let (res, pos) = match found {
        Some(rp) => rp,
        None => {
            gs.stats.inc(Event::GiveWorkErr);
            return false;
        },
    };
    let fi = match find_nearest_factory(gs, area, home, res) {
        Some(fi) => fi,
        None => {
            proof {
                assert forall|p: Vec2i, f: int| !#[trigger] harvest_choice(old(gs), i as int, p, f) by {
                    if harvest_choice(old(gs), i as int, p, f) {
                        lemma_nearest_resource_unique(old(gs), area, home, p, pos);
                    }
                }
            }
            gs.stats.inc(Event::GiveWorkErr);
            return false;
        },
    };
    let ghost o = *gs;
    proof {
        assert(harvest_choice(&o, i as int, pos, fi as int));
    }
    let _ = gs.reserve_resource(pos);
    let _ = gs.factories[fi].reserve_input(res);
    gs.stats.inc(Event::GiveWorkOk);
    let to = gs.factories[fi].position;
    let mut c = gs.crablets[i];
    c.task = Task::Harvest { resource: res, from: pos, to };
    gs.crablets.set(i, c);
    proof {
        lemma_reserve_input_grows(&gs.factories@[fi as int], &o.factories@[fi as int], res);
        assert(harvest_assigned(gs, &o, i as int, pos, fi as int));
    }
    true
}

/// A claimed cell is not offered again: once agent `i` has been sent to harvest at `p`, the
/// claim on `p` is live; and in any later world where that claim still lasts, no agent's harvest
/// choice is `p`.
pub proof fn lemma_claimed_cell_not_offered(
    o: &GameState,
    n: &GameState,
    i: int,
    p: Vec2i,
    f: int,
    later: &GameState,
    j: int,
    q: Vec2i,
    g: int,
)
    requires
        o.wf(),
        harvest_choice(o, i, p, f),
        harvest_assigned(n, o, i, p, f),
        later.reservation(p) > 0,
        harvest_choice(later, j, q, g),
    ensures
        n.reservation(p) == RESOURCE_RESERVATION_TTL_MAJOR_TICKS,
        q != p,
{
    crate::grid::lemma_index_in_range(
        o.resource_reservations.size.x as int,
        o.resource_reservations.size.y as int,
        p.x as int,
        p.y as int,
    );
}

/// `c` is `o` sent to harvest a resource that lies at its target, under a live claim.
pub open spec fn harvesting_claimed(gs: &GameState, c: Crablet, o: Crablet) -> bool {
    &&& available(o)
    &&& c.task matches Task::Harvest { resource, from, to }
    &&& c == (Crablet { task: c.task, ..o })
    &&& gs.reservation(from) > 0
    &&& gs.resource_at(from) == Some(resource)
}

pub open spec fn harvest_from(c: Crablet) -> Vec2i {
    match c.task {
        Task::Harvest { from, .. } => from,
        _ => c.position,
    }
}

/// One step of the harvest pass, for agent `i`: an available agent is offered work exactly as
/// `assign_harvest` states (nearest unclaimed resource and nearest factory that takes it, the
/// claim, one promised input slot), else a failure is counted; any other agent is passed over.
pub open spec fn harvest_step(n: &GameState, o: &GameState, i: int) -> bool {
    &&& n.wf()
    &&& n.same_setting(o)
    &&& if available(o.crablets@[i]) {
        if exists|p: Vec2i, f: int| #[trigger] harvest_choice(o, i, p, f) {
            exists|p: Vec2i, f: int| #[trigger] harvest_choice(o, i, p, f) && harvest_assigned(n, o, i, p, f)
        } else {
            n.crablets == o.crablets && n.factories == o.factories && n.resource_reservations
                == o.resource_reservations && n.stats.inc_from(&o.stats, Event::GiveWorkErr)
        }
    } else {
        *n == *o
    }
}

/// Offers harvesting work to every available agent, in index order.
///
/// The pass is the sequence of per-agent steps over worlds `t[0] == old`, ..., `t[n] == final`:
/// agent `k` is offered work against the world as agents `0..k` left it. Agents that get work
/// were available and are now harvesting a ground resource that was unclaimed before the pass,
/// still lies there and is claimed; no two of them target the same cell.
pub fn tick_give_work_harvest(gs: &mut GameState)
    requires
        old(gs).wf(),
    ensures
        harvest_pass(final(gs), old(gs)),
{
    let n = gs.crablets.len();
    let ghost mut trace: Seq<GameState> = seq![*gs];
    proof {
        assert forall|f: int| 0 <= f < gs.factories@.len() implies (#[trigger] gs.factories@[f]).grown_from(&old(gs).factories@[f]) by {
            lemma_grown_refl(&gs.factories@[f]);
        }
    }
    let mut i: usize = 0;
    while i < n
        invariant
            gs.wf(),
            gs.same_setting(old(gs)),
            gs.factories_grown_from(old(gs)),
            gs.crablets@.len() == n,
            n == old(gs).crablets@.len(),
            i <= n,
            trace.len() == i + 1,
            trace[0] == *old(gs),
            trace[i as int] == *gs,
            forall|k: int| 0 <= k < i ==> #[trigger] harvest_step(&trace[k + 1], &trace[k], k),
            forall|j: int| i <= j < n ==> #[trigger] gs.crablets@[j] == old(gs).crablets@[j],
            forall|q: Vec2i| #[trigger] gs.reservation(q) == old(gs).reservation(q) || gs.reservation(q)
                == RESOURCE_RESERVATION_TTL_MAJOR_TICKS,
            forall|c: int|
                0 <= c < n ==> #[trigger] gs.crablets@[c] == old(gs).crablets@[c] || (harvesting_claimed(
                    gs,
                    gs.crablets@[c],
                    old(gs).crablets@[c],
                ) && old(gs).reservation(harvest_from(gs.crablets@[c])) == 0),
            forall|a: int, b: int|
                0 <= a < b < n && gs.crablets@[a] != old(gs).crablets@[a]
                    && gs.crablets@[b] != old(gs).crablets@[b] ==> harvest_from(#[trigger] gs.crablets@[a])
                    != harvest_from(#[trigger] gs.crablets@[b]),
        decreases n - i,
    {
        let ghost before = *gs;
        let ghost ii = i as int;
        if is_available(&gs.crablets[i]) {
            let ok = assign_harvest(gs, i);
            proof {
                assert(before.crablets@[ii] == old(gs).crablets@[ii]);
                if ok {
                    let (p, f) = choose|p: Vec2i, f: int|
                        #[trigger] harvest_choice(&before, ii, p, f) && harvest_assigned(gs, &before, ii, p, f);
                    assert(harvest_choice(&before, ii, p, f));
                    let idx = before.resource_reservations.index_of(p);
                    crate::grid::lemma_index_in_range(
                        before.resource_reservations.size.x as int,
                        before.resource_reservations.size.y as int,
                        p.x as int,
                        p.y as int,
                    );
                    assert(before.resource_reservations.in_bounds(p));
                    assert(gs.reservation(p) == RESOURCE_RESERVATION_TTL_MAJOR_TICKS);
                    assert(before.reservation(p) == 0);
                    assert(old(gs).reservation(p) == 0);
                    assert forall|q: Vec2i| q != p && before.resource_reservations.in_bounds(q) implies gs.reservation(q)
                        == before.reservation(q) by {
                        assert(gs.resource_reservations.in_bounds(q));
                        if before.resource_reservations.index_of(q) == idx {
                            assert(q.x == p.x && q.y == p.y) by (nonlinear_arith)
                                requires
                                    q.x + before.resource_reservations.size.x * q.y == p.x
                                        + before.resource_reservations.size.x * p.y,
                                    0 <= q.x < before.resource_reservations.size.x,
                                    0 <= p.x < before.resource_reservations.size.x,
                                    0 <= q.y,
                                    0 <= p.y,
                            ;
                        }
                        crate::grid::lemma_index_in_range(
                            before.resource_reservations.size.x as int,
                            before.resource_reservations.size.y as int,
                            q.x as int,
                            q.y as int,
                        );
                    }
                    assert forall|q: Vec2i| q != p implies gs.reservation(q) == before.reservation(q) by {
                        if before.resource_reservations.in_bounds(q) {
                        }
                    }
                    assert forall|q: Vec2i| #[trigger] gs.reservation(q) == old(gs).reservation(q) || gs.reservation(q)
                        == RESOURCE_RESERVATION_TTL_MAJOR_TICKS by {
                        if q != p {
                            assert(gs.reservation(q) == before.reservation(q));
                        }
                    }
                    assert forall|g: int| 0 <= g < gs.factories@.len() implies (#[trigger] gs.factories@[g]).grown_from(&old(gs).factories@[g]) by {
                        if g == f {
                            lemma_reserve_input_grows(&gs.factories@[g], &before.factories@[g], before.resource_at(p)->0);
                        } else {
                            lemma_grown_refl(&gs.factories@[g]);
                        }
                        lemma_grown_trans(&gs.factories@[g], &before.factories@[g], &old(gs).factories@[g]);
                    }
                    assert(harvesting_claimed(gs, gs.crablets@[ii], old(gs).crablets@[ii]));
                    assert(harvest_from(gs.crablets@[ii]) == p);
                    assert forall|c: int|
                        0 <= c < n implies #[trigger] gs.crablets@[c] == old(gs).crablets@[c] || (harvesting_claimed(
                            gs,
                            gs.crablets@[c],
                            old(gs).crablets@[c],
                        ) && old(gs).reservation(harvest_from(gs.crablets@[c])) == 0) by {
                        if c != ii && gs.crablets@[c] != old(gs).crablets@[c] {
                            assert(gs.crablets@[c] == before.crablets@[c]);
                            assert(harvesting_claimed(&before, before.crablets@[c], old(gs).crablets@[c]));
                            assert(before.reservation(harvest_from(before.crablets@[c])) > 0);
                            assert(harvest_from(before.crablets@[c]) != p);
                        }
                    }
                    assert forall|a: int, b: int|
                        0 <= a < b < n && gs.crablets@[a] != old(gs).crablets@[a]
                            && gs.crablets@[b] != old(gs).crablets@[b] implies harvest_from(#[trigger] gs.crablets@[a])
                            != harvest_from(#[trigger] gs.crablets@[b]) by {
                        if a == ii {
                            assert(gs.crablets@[b] == before.crablets@[b]);
                            assert(harvesting_claimed(&before, before.crablets@[b], old(gs).crablets@[b]));
                        } else if b == ii {
                            assert(gs.crablets@[a] == before.crablets@[a]);
                            assert(harvesting_claimed(&before, before.crablets@[a], old(gs).crablets@[a]));
                        } else {
                            assert(gs.crablets@[a] == before.crablets@[a]);
                            assert(gs.crablets@[b] == before.crablets@[b]);
                        }
                    }
                } else {
                    assert forall|f: int| 0 <= f < gs.factories@.len() implies (#[trigger] gs.factories@[f]).grown_from(&old(gs).factories@[f]) by {
                        assert(gs.factories@[f] == before.factories@[f]);
                    }
                }
                assert(harvest_step(gs, &before, ii));
            }
        }
        proof {
            if gs.resource_reservations == before.resource_reservations {
                assert forall|q: Vec2i| #[trigger] gs.reservation(q) == old(gs).reservation(q) || gs.reservation(q)
                    == RESOURCE_RESERVATION_TTL_MAJOR_TICKS by {
                    assert(gs.reservation(q) == before.reservation(q));
                }
            }
            assert(harvest_step(gs, &before, ii));
            trace = trace.push(*gs);
            assert(trace[ii] == before);
            assert forall|k: int| 0 <= k < i + 1 implies #[trigger] harvest_step(&trace[k + 1], &trace[k], k) by {
                if k < ii {
                    assert(trace[k + 1] == trace.drop_last()[k + 1]);
                }
            }
        }
        i = i + 1;
    }
}

/// An agent that stands idle with cargo and no task: its last delivery failed.
pub open spec fn empty_handed(c: Crablet) -> bool {
    &&& !(c.navigation.spec_status() is Travelling)
    &&& c.cargo is Some
    &&& c.task is Idle
}

fn is_empty_handed(c: &Crablet) -> (r: bool)
    ensures
        r == empty_handed(*c),
{
    c.navigation.status().is_idle() && c.cargo.is_some() && c.task.is_none()
}

/// `f` can take `r` now and is the nearest such factory to `pos`; the first by index among
/// equally near ones.
pub open spec fn nearest_acceptor(gs: &GameState, pos: Vec2i, r: Resource, f: int) -> bool {
    &&& 0 <= f < gs.factories@.len()
    &&& gs.factories@[f].spec_can_reserve_input(r)
    &&& forall|g: int|
        0 <= g < gs.factories@.len() && #[trigger] gs.factories@[g].spec_can_reserve_input(r) && g != f
            ==> dist_sq(gs.factories@[g].position, pos) > dist_sq(gs.factories@[f].position, pos) || (
            dist_sq(gs.factories@[g].position, pos) == dist_sq(gs.factories@[f].position, pos) && f < g)
}

/// Agent `c` was sent to deliver its cargo `r` to factory `f`, with a promised input slot.
pub open spec fn delivery_assigned(n: &GameState, o: &GameState, c: int, r: Resource, f: int) -> bool {
    let slot = o.factories@[f].input_slot(r)->0;
    &&& n.crablets@ == o.crablets@.update(
        c,
        Crablet { task: Task::FactoryDeliver { to: o.factories@[f].position }, ..o.crablets@[c] },
    )
    &&& n.factories@.len() == o.factories@.len()
    &&& forall|g: int| 0 <= g < n.factories@.len() && g != f ==> #[trigger] n.factories@[g] == o.factories@[g]
    &&& n.factories@[f].input_set_from(&o.factories@[f], slot, o.factories@[f].inputs@[slot].spec_reserve_slot().1)
}

/// The factory nearest to `pos` that can take `r` now.
fn find_nearest_acceptor(gs: &GameState, pos: Vec2i, r: Resource) -> (res: Option<usize>)
    ensures
        match res {
            Some(f) => nearest_acceptor(gs, pos, r, f as int),
            None => forall|g: int|
                0 <= g < gs.factories@.len() ==> !#[trigger] gs.factories@[g].spec_can_reserve_input(r),
        },
{
    let mut best: Option<usize> = None;
    let mut best_dist: u128 = 0;
    let mut i: usize = 0;
    while i < gs.factories.len()
        invariant
            i <= gs.factories@.len(),
            match best {
                Some(f) => {
                    &&& f < i
                    &&& gs.factories@[f as int].spec_can_reserve_input(r)
                    &&& best_dist == dist_sq(gs.factories@[f as int].position, pos)
                    &&& forall|g: int|
                        0 <= g < i && #[trigger] gs.factories@[g].spec_can_reserve_input(r) && g != f
                            ==> dist_sq(gs.factories@[g].position, pos) > dist_sq(
                            gs.factories@[f as int].position,
                            pos,
                        ) || (dist_sq(gs.factories@[g].position, pos) == dist_sq(
                            gs.factories@[f as int].position,
                            pos,
                        ) && f < g)
                },
                None => forall|g: int| 0 <= g < i ==> !#[trigger] gs.factories@[g].spec_can_reserve_input(r),
            },
        decreases gs.factories@.len() - i,
    {
        let f = &gs.factories[i];
        if f.can_reserve_input(r) {
            let d = f.position.distance_squared(pos);
            let better = match best {
                None => true,
                Some(_) => d < best_dist,
            };
            if better {
                best = Some(i);
                best_dist = d;
            }
        }
        i = i + 1;
    }
    best
}

/// Sends agent `c`, if it carries cargo, to the nearest factory (from where it stands) that can
/// take it, promising an input slot there. Nothing changes when there is no cargo or no such
/// factory.
pub fn assign_delivery(gs: &mut GameState, c: usize) -> (r: bool)
    requires
        old(gs).wf(),
        c < old(gs).crablets@.len(),
    ensures
        final(gs).wf(),
        final(gs).same_world(old(gs)),
        r == (old(gs).crablets@[c as int].cargo matches Some(cargo) && exists|f: int|
            #[trigger] nearest_acceptor(old(gs), old(gs).crablets@[c as int].position, cargo, f)),
        r ==> exists|f: int|
            #[trigger] nearest_acceptor(old(gs), old(gs).crablets@[c as int].position, old(gs).crablets@[c as int].cargo->0, f)
                && delivery_assigned(final(gs), old(gs), c as int, old(gs).crablets@[c as int].cargo->0, f),
        !r ==> final(gs).crablets == old(gs).crablets && final(gs).factories == old(gs).factories,
        !r ==> (old(gs).crablets@[c as int].cargo matches Some(cargo) ==> forall|g: int|
            0 <= g < old(gs).factories@.len() ==> !#[trigger] old(gs).factories@[g].spec_can_reserve_input(cargo)),
{
    let cargo = match gs.crablets[c].cargo {
        Some(cargo) => cargo,
        None => return false,
    };
    let pos = gs.crablets[c].position;
    let fi = match find_nearest_acceptor(gs, pos, cargo) {
        Some(fi) => fi,
        None => return false,
    };
    let ghost o = *gs;
    let _ = gs.factories[fi].reserve_input(cargo);
    let to = gs.factories[fi].position;
    let mut crab = gs.crablets[c];
    crab.task = Task::FactoryDeliver { to };
    gs.crablets.set(c, crab);
    proof {
        lemma_reserve_input_grows(&gs.factories@[fi as int], &o.factories@[fi as int], cargo);
        assert(nearest_acceptor(&o, pos, cargo, fi as int));
        assert(delivery_assigned(gs, &o, c as int, cargo, fi as int));
    }
    true
}

/// One step of the empty-hands pass, for agent `c`: an agent idle with cargo and no task is sent,
/// exactly as `assign_delivery` states, to the factory nearest to where it stands that can take
/// the cargo, with one promised input slot there; with no such factory, or for any other agent,
/// nothing changes.
pub open spec fn delivery_step(n: &GameState, o: &GameState, c: int) -> bool {
    let crab = o.crablets@[c];
    &&& n.wf()
    &&& n.same_world(o)
    &&& if empty_handed(crab) && exists|f: int| #[trigger] nearest_acceptor(o, crab.position, crab.cargo->0, f) {
        exists|f: int|
            #[trigger] nearest_acceptor(o, crab.position, crab.cargo->0, f) && delivery_assigned(n, o, c, crab.cargo->0, f)
    } else {
        n.crablets == o.crablets && n.factories == o.factories
    }
}

/// Sends every agent that stands idle with cargo and no task (its delivery failed) to the
/// nearest factory that can take the cargo.
///
/// The pass is the sequence of per-agent steps over worlds `t[0] == old`, ..., `t[n] == final`:
/// agent `k` is handled against the world as agents `0..k` left it. Afterwards, an agent still
/// idle with cargo has no factory that could take it.
pub fn tick_empty_hands(gs: &mut GameState)
    requires
        old(gs).wf(),
    ensures
        empty_hands_pass(final(gs), old(gs)),
{
    let n = gs.crablets.len();
    let ghost mut trace: Seq<GameState> = seq![*gs];
    proof {
        assert forall|f: int| 0 <= f < gs.factories@.len() implies (#[trigger] gs.factories@[f]).grown_from(&old(gs).factories@[f]) by {
            lemma_grown_refl(&gs.factories@[f]);
        }
    }
    let mut i: usize = 0;
    while i < n
        invariant
            gs.wf(),
            gs.same_world(old(gs)),
            gs.factories_grown_from(old(gs)),
            gs.crablets@.len() == n,
            n == old(gs).crablets@.len(),
            i <= n,
            trace.len() == i + 1,
            trace[0] == *old(gs),
            trace[i as int] == *gs,
            forall|k: int| 0 <= k < i ==> #[trigger] delivery_step(&trace[k + 1], &trace[k], k),
            forall|j: int| i <= j < n ==> #[trigger] gs.crablets@[j] == old(gs).crablets@[j],
            forall|c: int|
                0 <= c < n ==> #[trigger] gs.crablets@[c] == old(gs).crablets@[c] || (empty_handed(old(gs).crablets@[c])
                    && gs.crablets@[c] == (Crablet { task: gs.crablets@[c].task, ..old(gs).crablets@[c] })
                    && gs.crablets@[c].task is FactoryDeliver),
            forall|c: int, f: int|
                0 <= c < i && empty_handed(#[trigger] gs.crablets@[c]) && 0 <= f < gs.factories@.len()
                    ==> !#[trigger] gs.factories@[f].spec_can_reserve_input(gs.crablets@[c].cargo->0),
        decreases n - i,
    {
        let ghost before = *gs;
        let ghost ii = i as int;
        if is_empty_handed(&gs.crablets[i]) {
            let ok = assign_delivery(gs, i);
            proof {
                assert(before.crablets@[ii] == old(gs).crablets@[ii]);
                if ok {
                    let f = choose|f: int|
                        #[trigger] nearest_acceptor(&before, before.crablets@[ii].position, before.crablets@[ii].cargo->0, f)
                            && delivery_assigned(gs, &before, ii, before.crablets@[ii].cargo->0, f);
                    assert(delivery_assigned(gs, &before, ii, before.crablets@[ii].cargo->0, f));
                    assert forall|g: int| 0 <= g < gs.factories@.len() implies (#[trigger] gs.factories@[g]).grown_from(&old(gs).factories@[g]) by {
                        if g == f {
                            lemma_reserve_input_grows(&gs.factories@[g], &before.factories@[g], before.crablets@[ii].cargo->0);
                        } else {
                            lemma_grown_refl(&gs.factories@[g]);
                        }
                        lemma_grown_trans(&gs.factories@[g], &before.factories@[g], &old(gs).factories@[g]);
                    }
                    assert forall|g: int| 0 <= g < gs.factories@.len() implies (#[trigger] gs.factories@[g]).grown_from(&before.factories@[g]) by {
                        if g == f {
                            lemma_reserve_input_grows(&gs.factories@[g], &before.factories@[g], before.crablets@[ii].cargo->0);
                        } else {
                            lemma_grown_refl(&gs.factories@[g]);
                        }
                    }
                    assert(gs.factories_grown_from(&before));
                } else {
                    assert forall|g: int| 0 <= g < gs.factories@.len() implies (#[trigger] gs.factories@[g]).grown_from(&before.factories@[g]) by {
                        lemma_grown_refl(&gs.factories@[g]);
                    }
                }
                assert(delivery_step(gs, &before, ii));
            }
        } else {
            proof {
                assert forall|g: int| 0 <= g < gs.factories@.len() implies (#[trigger] gs.factories@[g]).grown_from(&before.factories@[g]) by {
                    lemma_grown_refl(&gs.factories@[g]);
                }
            }
        }
        proof {
            assert(gs.factories_grown_from(&before));
            assert forall|c: int, f: int|
                0 <= c < i + 1 && empty_handed(#[trigger] gs.crablets@[c]) && 0 <= f < gs.factories@.len()
                    implies !#[trigger] gs.factories@[f].spec_can_reserve_input(gs.crablets@[c].cargo->0) by {
                if c < ii {
                    assert(gs.crablets@[c] == before.crablets@[c]);
                    if gs.factories@[f].spec_can_reserve_input(gs.crablets@[c].cargo->0) {
                        lemma_grown_monotone(&gs.factories@[f], &before.factories@[f], gs.crablets@[c].cargo->0);
                    }
                }
            }
            assert(delivery_step(gs, &before, ii));
            trace = trace.push(*gs);
            assert(trace[ii] == before);
            assert forall|k: int| 0 <= k < i + 1 implies #[trigger] delivery_step(&trace[k + 1], &trace[k], k) by {
                if k < ii {
                    assert(trace[k + 1] == trace.drop_last()[k + 1]);
                }
            }
        }
        i = i + 1;
    }
}

/// What the factory-to-factory pass does.
pub open spec fn factories_pass(n: &GameState, o: &GameState) -> bool {
    &&& exists|t: Seq<GameState>|
        t.len() >= 1 && t[0] == *o && t.last() == *n && forall|k: int|
            0 <= k < t.len() - 1 ==> #[trigger] pickup_step(&t[k + 1], &t[k])
    &&& n.wf()
    &&& n.same_world(o)
    &&& n.factories_grown_from(o)
    &&& n.crablets@.len() == o.crablets@.len()
    &&& forall|c: int|
        0 <= c < n.crablets@.len() ==> #[trigger] n.crablets@[c] == o.crablets@[c] || assigned_pickup(
            o.factories@,
            n.crablets@[c],
            o.crablets@[c],
        )
    &&& (exists|c: int| 0 <= c < n.crablets@.len() && available(#[trigger] n.crablets@[c]))
        ==> forall|s: int, d: int, r: Resource| !#[trigger] can_transfer(n.factories@, s, d, r)
    &&& (forall|c: int| 0 <= c < o.crablets@.len() ==> !available(#[trigger] o.crablets@[c]))
        ==> n.factories == o.factories && n.crablets == o.crablets
}

/// What the harvest pass does.
pub open spec fn harvest_pass(n: &GameState, o: &GameState) -> bool {
    &&& n.wf()
    &&& n.same_setting(o)
    &&& n.factories_grown_from(o)
    &&& n.crablets@.len() == o.crablets@.len()
    &&& exists|t: Seq<GameState>|
        t.len() == o.crablets@.len() + 1 && t[0] == *o && t[o.crablets@.len() as int]
            == *n && forall|k: int|
            0 <= k < o.crablets@.len() ==> #[trigger] harvest_step(&t[k + 1], &t[k], k)
    &&& forall|c: int|
        0 <= c < n.crablets@.len() ==> #[trigger] n.crablets@[c] == o.crablets@[c]
            || (harvesting_claimed(n, n.crablets@[c], o.crablets@[c]) && o.reservation(harvest_from(n.crablets@[c])) == 0)
    &&& forall|a: int, b: int|
        0 <= a < b < n.crablets@.len() && n.crablets@[a] != o.crablets@[a]
            && n.crablets@[b] != o.crablets@[b] ==> harvest_from(#[trigger] n.crablets@[a])
            != harvest_from(#[trigger] n.crablets@[b])
}

/// What the empty-hands pass does.
pub open spec fn empty_hands_pass(n: &GameState, o: &GameState) -> bool {
    &&& n.wf()
    &&& n.same_world(o)
    &&& n.factories_grown_from(o)
    &&& n.crablets@.len() == o.crablets@.len()
    &&& exists|t: Seq<GameState>|
        t.len() == o.crablets@.len() + 1 && t[0] == *o && t[o.crablets@.len() as int]
            == *n && forall|k: int|
            0 <= k < o.crablets@.len() ==> #[trigger] delivery_step(&t[k + 1], &t[k], k)
    &&& forall|c: int|
        0 <= c < n.crablets@.len() ==> #[trigger] n.crablets@[c] == o.crablets@[c]
            || (empty_handed(o.crablets@[c]) && n.crablets@[c] == (Crablet {
            task: n.crablets@[c].task,
            ..o.crablets@[c]
        }) && n.crablets@[c].task is FactoryDeliver)
    &&& forall|c: int, f: int|
        0 <= c < n.crablets@.len() && empty_handed(#[trigger] n.crablets@[c]) && 0 <= f
            < n.factories@.len() ==> !#[trigger] n.factories@[f].spec_can_reserve_input(
            n.crablets@[c].cargo->0,
        )
}

/// What giving work does: the factory pass, then the harvest pass, over a middle world.
pub open spec fn give_work_passes(n: &GameState, o: &GameState) -> bool {
    exists|m: GameState| #[trigger] factories_pass(&m, o) && harvest_pass(n, &m)
}

/// The scheduler's tick through the middle world `m`: the empty-hands pass if enabled, then the
/// work passes if enabled.
pub open spec fn taskman_passes(n: &GameState, o: &GameState, m: GameState) -> bool {
    &&& (if o.debug.taskman_empty_hands {
        empty_hands_pass(&m, o)
    } else {
        m == *o
    })
    &&& (if o.debug.taskman_give_work {
        give_work_passes(n, &m)
    } else {
        *n == m
    })
}

/// What the scheduler's tick does.
pub open spec fn taskman_ticked(n: &GameState, o: &GameState) -> bool {
    &&& n.wf()
    &&& n.same_setting(o)
    &&& n.factories_grown_from(o)
    &&& n.crablets@.len() == o.crablets@.len()
    &&& !o.debug.taskman_empty_hands && !o.debug.taskman_give_work ==> *n == *o
    &&& exists|m: GameState| #[trigger] taskman_passes(n, o, m)
}

/// Factory logistics first, then harvesting.
pub fn tick_give_work(gs: &mut GameState)
    requires
        old(gs).wf(),
    ensures
        final(gs).wf(),
        final(gs).same_setting(old(gs)),
        final(gs).factories_grown_from(old(gs)),
        final(gs).crablets@.len() == old(gs).crablets@.len(),
        give_work_passes(final(gs), old(gs)),
{
    tick_give_work_factories(gs);
    let ghost mid = *gs;
    tick_give_work_harvest(gs);
    proof {
        assert(factories_pass(&mid, old(gs)) && harvest_pass(gs, &mid));
        assert forall|f: int| 0 <= f < gs.factories@.len() implies (#[trigger] gs.factories@[f]).grown_from(&old(gs).factories@[f]) by {
            lemma_grown_trans(&gs.factories@[f], &mid.factories@[f], &old(gs).factories@[f]);
        }
    }
}

/// The scheduler's tick: recovery of failed deliveries, then new work, each if enabled.
pub fn tick_taskman(gs: &mut GameState)
    requires
        old(gs).wf(),
    ensures
        taskman_ticked(final(gs), old(gs)),
{
    proof {
        assert forall|f: int| 0 <= f < gs.factories@.len() implies (#[trigger] gs.factories@[f]).grown_from(&old(gs).factories@[f]) by {
            lemma_grown_refl(&gs.factories@[f]);
        }
    }
    if gs.debug.taskman_empty_hands {
        tick_empty_hands(gs);
    }
    let ghost mid = *gs;
    proof {
        assert(if old(gs).debug.taskman_empty_hands { empty_hands_pass(&mid, old(gs)) } else { mid == *old(gs) });
    }
    if gs.debug.taskman_give_work {
        tick_give_work(gs);
        proof {
            assert forall|f: int| 0 <= f < gs.factories@.len() implies (#[trigger] gs.factories@[f]).grown_from(&old(gs).factories@[f]) by {
                lemma_grown_trans(&gs.factories@[f], &mid.factories@[f], &old(gs).factories@[f]);
            }
        }
    }
    proof {
        assert(taskman_passes(gs, old(gs), mid));
    }
}

} // verus!
