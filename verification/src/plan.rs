use itertools::Itertools;
use vstd::prelude::*;
use vstd::relations::{sorted_by, total_ordering};
use vstd::seq_lib::{lemma_sorted_unique, to_multiset_contains};

use crate::direction::ElevatorDirection;
use crate::request::ElevatorRequest;

verus! {

/// The request travels in `direction` and names `floor` as its boarding or
/// its desired floor.
pub open spec fn names_floor(r: ElevatorRequest, direction: ElevatorDirection, floor: i16) -> bool {
    r.direction == direction && (r.boarding_floor == floor || r.desired_floor == floor)
}

/// Some pending request for `direction` names `floor`.
pub open spec fn floor_requested(
    queue: Seq<ElevatorRequest>,
    direction: ElevatorDirection,
    floor: i16,
) -> bool {
    exists|k: int| 0 <= k < queue.len() && names_floor(#[trigger] queue[k], direction, floor)
}

/// Each floor is at most as high as every later one.
pub open spec fn ascending(floors: Seq<i16>) -> bool {
    forall|i: int, j: int| 0 <= i < j < floors.len() ==> floors[i] <= floors[j]
}

/// Each floor is lower than every later one.
pub open spec fn strictly_ascending(floors: Seq<i16>) -> bool {
    forall|i: int, j: int| 0 <= i < j < floors.len() ==> floors[i] < floors[j]
}

/// Each floor is higher than every later one.
pub open spec fn strictly_descending(floors: Seq<i16>) -> bool {
    forall|i: int, j: int| 0 <= i < j < floors.len() ==> floors[i] > floors[j]
}

/// `plan` is the order in which a sweep in `direction` visits floors: exactly
/// the floors that the pending requests for `direction` name, each once,
/// highest first on the way down and lowest first otherwise.
pub open spec fn is_sweep_plan(
    plan: Seq<i16>,
    queue: Seq<ElevatorRequest>,
    direction: ElevatorDirection,
) -> bool {
    &&& forall|floor: i16| plan.contains(floor) <==> floor_requested(queue, direction, floor)
    &&& if direction == ElevatorDirection::Down {
        strictly_descending(plan)
    } else {
        strictly_ascending(plan)
    }
}

/// The floors that the requests for `direction` name, in queue order: of each
/// request first the desired floor, then the boarding floor.
pub open spec fn candidate_floors(
    queue: Seq<ElevatorRequest>,
    direction: ElevatorDirection,
) -> Seq<i16>
    decreases queue.len(),
{
    if queue.len() == 0 {
        Seq::empty()
    } else {
        let earlier = candidate_floors(queue.drop_last(), direction);
        let r = queue.last();
        if r.direction == direction {
            earlier.push(r.desired_floor).push(r.boarding_floor)
        } else {
            earlier
        }
    }
}

/// The floors of `floors` in their order, each kept where it first occurs.
pub open spec fn without_repeats(floors: Seq<i16>) -> Seq<i16>
    decreases floors.len(),
{
    if floors.len() == 0 {
        floors
    } else {
        let kept = without_repeats(floors.drop_last());
        if kept.contains(floors.last()) {
            kept
        } else {
            kept.push(floors.last())
        }
    }
}

/// The usual order of floor numbers.
pub open spec fn floor_leq() -> spec_fn(i16, i16) -> bool {
    |a: i16, b: i16| a <= b
}

/// The floors a sweep in `direction` visits, in the order of the visit.
pub open spec fn sweep_plan(queue: Seq<ElevatorRequest>, direction: ElevatorDirection) -> Seq<
    i16,
> {
    let lowest_first = without_repeats(candidate_floors(queue, direction).sort_by(floor_leq()));
    if direction == ElevatorDirection::Down {
        lowest_first.reverse()
    } else {
        lowest_first
    }
}

/// Calls `Itertools::sorted` on the floors. Its source collects the items
/// and sorts them with the slice's stable `sort`, so the result holds the
/// same floors as the argument, each as often, lowest first.
#[verifier::external_body]
fn sorted_floors(floors: Vec<i16>) -> (out: Vec<i16>)
    ensures
        ascending(out@),
        out@.to_multiset() == floors@.to_multiset(),
{
    floors.into_iter().sorted().collect()
}

/// Calls `Itertools::unique` on the floors and gathers what it yields with
/// `Itertools::collect_vec`. The adaptor yields an item exactly when no equal
/// item came before it, in the order of the input.
#[verifier::external_body]
fn unique_floors(floors: Vec<i16>) -> (out: Vec<i16>)
    ensures
        out@ == without_repeats(floors@),
{
    floors.into_iter().unique().collect_vec()
}

/// The floors of `floors`, last first.
fn reversed_floors(floors: Vec<i16>) -> (out: Vec<i16>)
    ensures
        out@ == floors@.reverse(),
{
    let mut out: Vec<i16> = Vec::new();
    let mut left: usize = floors.len();
    while left > 0
        invariant
            left <= floors.len(),
            out.len() == floors.len() - left,
            forall|i: int| 0 <= i < out.len() ==> out[i] == floors[floors.len() - 1 - i],
        decreases left,
    {
        left = left - 1;
        out.push(floors[left]);
    }
    assert(out@ =~= floors@.reverse());
    out
}

/// The floors that the requests for `direction` name, in queue order.
fn gather_floors(queue: &Vec<ElevatorRequest>, direction: ElevatorDirection) -> (out: Vec<i16>)
    ensures
        out@ == candidate_floors(queue@, direction),
{
    let mut out: Vec<i16> = Vec::new();
    let mut i: usize = 0;
    while i < queue.len()
        invariant
            i <= queue.len(),
            out@ == candidate_floors(queue@.take(i as int), direction),
        decreases queue.len() - i,
    {
        let r = queue[i];
        proof {
            assert(queue@.take(i + 1).drop_last() =~= queue@.take(i as int));
        }
        if r.direction == direction {
            out.push(r.desired_floor);
            out.push(r.boarding_floor);
        }
        i = i + 1;
    }
    proof {
        assert(queue@.take(i as int) =~= queue@);
    }
    out
}

/// The floors a sweep in `direction` visits, in the order of the visit: the
/// floors named by the pending requests for `direction`, each once, highest
/// first on the way down and lowest first otherwise.
pub fn floor_sequence(queue: &Vec<ElevatorRequest>, direction: ElevatorDirection) -> (plan: Vec<
    i16,
>)
    ensures
        plan@ == sweep_plan(queue@, direction),
        is_sweep_plan(plan@, queue@, direction),
{
    let candidates = gather_floors(queue, direction);
    let sorted = sorted_floors(candidates);
    proof {
        lemma_floor_leq_total();
        let by_spec = candidates@.sort_by(floor_leq());
        candidates@.lemma_sort_by_ensures(floor_leq());
        assert(sorted_by(sorted@, floor_leq()));
        lemma_sorted_unique(sorted@, by_spec, floor_leq());
        lemma_sweep_plan_is_plan(queue@, direction);
    }
    let distinct = unique_floors(sorted);
    if direction == ElevatorDirection::Down {
        reversed_floors(distinct)
    } else {
        distinct
    }
}

/// The usual order of floor numbers is a total order.
pub proof fn lemma_floor_leq_total()
    ensures
        total_ordering(floor_leq()),
{
    let leq = floor_leq();
    assert(forall|x: i16| #[trigger] leq(x, x));
    assert(forall|x: i16, y: i16| #[trigger] leq(x, y) && #[trigger] leq(y, x) ==> x == y);
    assert(forall|x: i16, y: i16, z: i16| #[trigger] leq(x, y) && #[trigger] leq(y, z) ==> leq(x, z));
    assert(forall|x: i16, y: i16| #[trigger] leq(x, y) || #[trigger] leq(y, x));
}

/// The candidate floors are exactly the floors that some request for
/// `direction` names.
pub proof fn lemma_candidates_are_requested(
    queue: Seq<ElevatorRequest>,
    direction: ElevatorDirection,
    floor: i16,
)
    ensures
        candidate_floors(queue, direction).contains(floor) <==> floor_requested(
            queue,
            direction,
            floor,
        ),
    decreases queue.len(),
{
    if queue.len() > 0 {
        let front = queue.drop_last();
        let r = queue.last();
        let earlier = candidate_floors(front, direction);
        lemma_candidates_are_requested(front, direction, floor);
        if floor_requested(queue, direction, floor) {
            let k = choose|k: int|
                0 <= k < queue.len() && names_floor(#[trigger] queue[k], direction, floor);
            if k < front.len() {
                assert(names_floor(front[k], direction, floor));
                let at = choose|at: int| 0 <= at < earlier.len() && earlier[at] == floor;
                assert(candidate_floors(queue, direction)[at] == floor);
            } else {
                let all = candidate_floors(queue, direction);
                assert(all[all.len() - 2] == r.desired_floor);
                assert(all[all.len() - 1] == r.boarding_floor);
            }
        }
        if candidate_floors(queue, direction).contains(floor) {
            if earlier.contains(floor) {
                let k = choose|k: int|
                    0 <= k < front.len() && names_floor(#[trigger] front[k], direction, floor);
                assert(names_floor(queue[k], direction, floor));
            } else {
                assert(names_floor(queue[queue.len() - 1], direction, floor));
            }
        }
    }
}

/// Dropping repeats from floors in ascending order leaves the same floors,
/// each once, in strictly ascending order.
pub proof fn lemma_without_repeats_of_ascending(floors: Seq<i16>)
    requires
        ascending(floors),
    ensures
        strictly_ascending(without_repeats(floors)),
        forall|floor: i16| without_repeats(floors).contains(floor) <==> floors.contains(floor),
    decreases floors.len(),
{
    if floors.len() > 0 {
        let front = floors.drop_last();
        let last = floors.last();
        let kept = without_repeats(front);
        lemma_without_repeats_of_ascending(front);
        let out = without_repeats(floors);
        assert forall|floor: i16| out.contains(floor) <==> floors.contains(floor) by {
            if floors.contains(floor) {
                let at = choose|at: int| 0 <= at < floors.len() && floors[at] == floor;
                if at < front.len() {
                    assert(front[at] == floor);
                    assert(front.contains(floor));
                    let k = choose|k: int| 0 <= k < kept.len() && kept[k] == floor;
                    assert(out[k] == floor);
                } else if !kept.contains(last) {
                    assert(out[out.len() - 1] == floor);
                }
            }
            if out.contains(floor) {
                if kept.contains(floor) {
                    assert(front.contains(floor));
                    let at = choose|at: int| 0 <= at < front.len() && front[at] == floor;
                    assert(floors[at] == floor);
                } else {
                    assert(floors[floors.len() - 1] == floor);
                }
            }
        }
        if !kept.contains(last) {
            assert forall|i: int, j: int| 0 <= i < j < out.len() implies out[i] < out[j] by {
                if j == out.len() - 1 {
                    assert(kept.contains(kept[i]));
                    assert(front.contains(kept[i]));
                    let at = choose|at: int| 0 <= at < front.len() && front[at] == kept[i];
                    assert(floors[at] <= floors[floors.len() - 1]);
                }
            }
        }
    }
}

/// The floors of a sweep are exactly the requested ones, each once, in the
/// order of travel.
pub proof fn lemma_sweep_plan_is_plan(queue: Seq<ElevatorRequest>, direction: ElevatorDirection)
    ensures
        is_sweep_plan(sweep_plan(queue, direction), queue, direction),
{
    let candidates = candidate_floors(queue, direction);
    let sorted = candidates.sort_by(floor_leq());
    let lowest_first = without_repeats(sorted);
    let plan = sweep_plan(queue, direction);
    lemma_floor_leq_total();
    candidates.lemma_sort_by_ensures(floor_leq());
    assert(ascending(sorted)) by {
        assert forall|i: int, j: int| 0 <= i < j < sorted.len() implies sorted[i] <= sorted[j] by {
            assert(floor_leq()(sorted[i], sorted[j]));
        }
    }
    lemma_without_repeats_of_ascending(sorted);
    assert forall|floor: i16| lowest_first.contains(floor) <==> floor_requested(
        queue,
        direction,
        floor,
    ) by {
        to_multiset_contains(sorted, floor);
        to_multiset_contains(candidates, floor);
        lemma_candidates_are_requested(queue, direction, floor);
    }
    if direction == ElevatorDirection::Down {
        assert forall|floor: i16| plan.contains(floor) <==> lowest_first.contains(floor) by {
            lemma_reverse_holds_the_same(lowest_first, floor);
        }
        assert(strictly_descending(plan));
    }
}

/// Two strictly ascending sequences that hold the same floors are equal.
pub proof fn lemma_strictly_ascending_unique(a: Seq<i16>, b: Seq<i16>)
    requires
        strictly_ascending(a),
        strictly_ascending(b),
        forall|floor: i16| a.contains(floor) <==> b.contains(floor),
    ensures
        a == b,
    decreases a.len(),
{
    if a.len() == 0 {
        if b.len() > 0 {
            assert(b.contains(b[0]));
        }
        assert(a =~= b);
    } else {
        assert(a.contains(a.last()));
        assert(b.contains(a.last()));
        assert(b.contains(b.last()));
        assert(a.contains(b.last()));
        let in_b = choose|k: int| 0 <= k < b.len() && b[k] == a.last();
        let in_a = choose|k: int| 0 <= k < a.len() && a[k] == b.last();
        assert(a.last() == b[in_b] && b[in_b] <= b.last());
        assert(b.last() == a[in_a] && a[in_a] <= a.last());
        let a_front = a.drop_last();
        let b_front = b.drop_last();
        assert forall|floor: i16| a_front.contains(floor) <==> b_front.contains(floor) by {
            if a_front.contains(floor) {
                let k = choose|k: int| 0 <= k < a_front.len() && a_front[k] == floor;
                assert(a[k] == floor);
                assert(a.contains(floor));
                let m = choose|m: int| 0 <= m < b.len() && b[m] == floor;
                assert(b_front[m] == floor);
            }
            if b_front.contains(floor) {
                let k = choose|k: int| 0 <= k < b_front.len() && b_front[k] == floor;
                assert(b[k] == floor);
                assert(b.contains(floor));
                let m = choose|m: int| 0 <= m < a.len() && a[m] == floor;
                assert(a_front[m] == floor);
            }
        }
        lemma_strictly_ascending_unique(a_front, b_front);
        assert(a =~= a_front.push(a.last()));
        assert(b =~= b_front.push(b.last()));
    }
}

/// Two strictly descending sequences that hold the same floors are equal:
/// read last first, they are strictly ascending.
pub proof fn lemma_strictly_descending_unique(a: Seq<i16>, b: Seq<i16>)
    requires
        strictly_descending(a),
        strictly_descending(b),
        forall|floor: i16| a.contains(floor) <==> b.contains(floor),
    ensures
        a == b,
{
    let up_a = a.reverse();
    let up_b = b.reverse();
    assert forall|floor: i16| up_a.contains(floor) <==> up_b.contains(floor) by {
        lemma_reverse_holds_the_same(a, floor);
        lemma_reverse_holds_the_same(b, floor);
    }
    lemma_strictly_ascending_unique(up_a, up_b);
    assert(a.len() == up_a.len() && b.len() == up_b.len());
    assert forall|i: int| 0 <= i < a.len() implies a[i] == b[i] by {
        assert(a[i] == up_a[a.len() - 1 - i]);
        assert(b[i] == up_b[b.len() - 1 - i]);
    }
    assert(a =~= b);
}

/// A sequence read last first holds the same floors.
pub proof fn lemma_reverse_holds_the_same(floors: Seq<i16>, floor: i16)
    ensures
        floors.reverse().contains(floor) <==> floors.contains(floor),
{
    let back = floors.reverse();
    if floors.contains(floor) {
        let at = choose|at: int| 0 <= at < floors.len() && floors[at] == floor;
        assert(back[floors.len() - 1 - at] == floor);
    }
    if back.contains(floor) {
        let at = choose|at: int| 0 <= at < back.len() && back[at] == floor;
        assert(floors[floors.len() - 1 - at] == floor);
    }
}

/// A sweep has one plan only: whatever visits exactly the requested floors,
/// each once and in the order of travel, is the plan of the sweep.
pub proof fn lemma_sweep_plan_unique(
    plan: Seq<i16>,
    queue: Seq<ElevatorRequest>,
    direction: ElevatorDirection,
)
    requires
        is_sweep_plan(plan, queue, direction),
    ensures
        plan == sweep_plan(queue, direction),
{
    lemma_sweep_plan_is_plan(queue, direction);
    if direction == ElevatorDirection::Down {
        lemma_strictly_descending_unique(plan, sweep_plan(queue, direction));
    } else {
        lemma_strictly_ascending_unique(plan, sweep_plan(queue, direction));
    }
}

} // verus!
