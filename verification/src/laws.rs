use vstd::prelude::*;

use crate::car::{CarView, ElevatorState};
use crate::direction::ElevatorDirection;
use crate::plan::{floor_requested, lemma_sweep_plan_is_plan, names_floor, sweep_plan};
use crate::request::ElevatorRequest;
use crate::route::{
    all_heading, all_serviceable, all_travel, car_after, completes, drains_within, leg_queue,
    missed_at_start, queue_after, remaining, route_queue, served_on_route, stands_still,
    stays_put, stop_serves, sweep_car, sweep_direction, sweep_queue,
};

verus! {

/// A stop takes out of the queue exactly the requests it completes.
pub proof fn lemma_remaining_holds(
    queue: Seq<ElevatorRequest>,
    floor: int,
    heading: ElevatorDirection,
    r: ElevatorRequest,
)
    ensures
        remaining(queue, floor, heading).contains(r) <==> queue.contains(r) && !completes(
            r,
            floor,
            heading,
        ),
{
    let keep = |r: ElevatorRequest| !completes(r, floor, heading);
    let rest = queue.filter(keep);
    if rest.contains(r) {
        queue.lemma_filter_contains_rev(keep, r);
        let at = choose|at: int| 0 <= at < rest.len() && rest[at] == r;
        queue.lemma_filter_pred(keep, at);
    }
    if queue.contains(r) && keep(r) {
        let at = choose|at: int| 0 <= at < queue.len() && queue[at] == r;
        queue.lemma_filter_contains(keep, at);
    }
}

/// A route takes out of the queue exactly the requests that one of its stops
/// completes.
pub proof fn lemma_route_queue_holds(
    from: int,
    queue: Seq<ElevatorRequest>,
    plan: Seq<i16>,
    heading: ElevatorDirection,
    r: ElevatorRequest,
)
    ensures
        route_queue(from, queue, plan, heading).contains(r) <==> queue.contains(r)
            && !served_on_route(r, from, plan, heading),
    decreases plan.len(),
{
    if plan.len() > 0 {
        let first = plan[0] as int;
        let later = plan.drop_first();
        lemma_route_queue_holds(first, leg_queue(from, queue, first, heading), later, heading, r);
        lemma_remaining_holds(queue, first, heading, r);
        assert(leg_queue(from, queue, first, heading).contains(r) <==> queue.contains(r)
            && !stop_serves(r, from, plan, 0, heading));
        assert forall|index: int| 0 <= index < later.len() implies stop_serves(
            r,
            first,
            later,
            index,
            heading,
        ) == stop_serves(r, from, plan, index + 1, heading) by {
            assert(later[index] == plan[index + 1]);
            if index > 0 {
                assert(later[index - 1] == plan[index]);
            }
        }
        if served_on_route(r, first, later, heading) {
            let index = choose|index: int|
                0 <= index < later.len() && #[trigger] stop_serves(r, first, later, index, heading);
            assert(stop_serves(r, from, plan, index + 1, heading));
        }
        if served_on_route(r, from, plan, heading) {
            let index = choose|index: int|
                0 <= index < plan.len() && #[trigger] stop_serves(r, from, plan, index, heading);
            if index > 0 {
                assert(stop_serves(r, first, later, index - 1, heading));
            }
        }
    }
}

/// A sweep serves its own direction only: it visits the floors that the
/// requests for its direction name and no others, and a pending request of
/// another direction is still pending after it.
pub proof fn lemma_other_direction_waits(
    car: CarView,
    queue: Seq<ElevatorRequest>,
    r: ElevatorRequest,
)
    requires
        queue.len() > 0,
        queue.contains(r),
        r.direction != sweep_direction(car, queue),
    ensures
        sweep_queue(car, queue).contains(r),
        forall|floor: i16|
            sweep_plan(queue, sweep_direction(car, queue)).contains(floor) <==> floor_requested(
                queue,
                sweep_direction(car, queue),
                floor,
            ),
{
    let direction = sweep_direction(car, queue);
    let plan = sweep_plan(queue, direction);
    lemma_sweep_plan_is_plan(queue, direction);
    lemma_route_queue_holds(car.floor, queue, plan, direction, r);
}

/// A sweep completes every pending request for its direction but those it
/// misses at the start: a request is still pending after the sweep of its
/// direction exactly where the car sets out from the request's desired floor
/// as the first stop.
pub proof fn lemma_sweep_serves_its_direction(
    car: CarView,
    queue: Seq<ElevatorRequest>,
    r: ElevatorRequest,
)
    requires
        queue.contains(r),
        r.direction == sweep_direction(car, queue),
    ensures
        sweep_queue(car, queue).contains(r) <==> missed_at_start(car, queue, r),
{
    let direction = sweep_direction(car, queue);
    let plan = sweep_plan(queue, direction);
    lemma_sweep_plan_is_plan(queue, direction);
    lemma_route_queue_holds(car.floor, queue, plan, direction, r);
    let at = choose|at: int| 0 <= at < queue.len() && queue[at] == r;
    assert(names_floor(queue[at], direction, r.desired_floor));
    assert(plan.contains(r.desired_floor));
    let leaves = choose|k: int| 0 <= k < plan.len() && plan[k] == r.desired_floor;
    if missed_at_start(car, queue, r) {
        assert forall|index: int| 0 <= index < plan.len() implies !stop_serves(
            r,
            car.floor,
            plan,
            index,
            direction,
        ) by {
            if index > 0 {
                assert(plan[index] != plan[0]);
            }
        }
    } else {
        if leaves > 0 {
            assert(plan[leaves - 1] != plan[leaves]);
        } else {
            assert(car.floor != plan[0] || r.desired_floor != car.floor);
        }
        assert(stop_serves(r, car.floor, plan, leaves, direction));
    }
}

/// A sweep ends at its last stop: at the lowest floor that a request for its
/// direction names on the way down, and at the highest otherwise. A sweep
/// without stops leaves the car where it is.
pub proof fn lemma_sweep_ends_at_last_stop(car: CarView, queue: Seq<ElevatorRequest>, floor: i16)
    requires
        floor_requested(queue, sweep_direction(car, queue), floor),
    ensures
        floor_requested(queue, sweep_direction(car, queue), sweep_car(car, queue).floor as i16),
        sweep_direction(car, queue) == ElevatorDirection::Down ==> sweep_car(car, queue).floor
            <= floor,
        sweep_direction(car, queue) != ElevatorDirection::Down ==> sweep_car(car, queue).floor
            >= floor,
{
    let direction = sweep_direction(car, queue);
    let plan = sweep_plan(queue, direction);
    lemma_sweep_plan_is_plan(queue, direction);
    assert(plan.contains(floor));
    let at = choose|at: int| 0 <= at < plan.len() && plan[at] == floor;
    assert(plan.contains(plan[plan.len() - 1]));
}

/// A sweep that has to serve a request with two different floors moves the
/// car: it has at least two stops, it ends away from its first stop, and it
/// leaves the door closed.
pub proof fn lemma_sweep_moves(car: CarView, queue: Seq<ElevatorRequest>, r: ElevatorRequest)
    requires
        queue.contains(r),
        r.direction == sweep_direction(car, queue),
        r.boarding_floor != r.desired_floor,
    ensures
        sweep_plan(queue, sweep_direction(car, queue)).len() >= 2,
        sweep_car(car, queue).floor != sweep_plan(queue, sweep_direction(car, queue))[0],
        !sweep_car(car, queue).door_open,
{
    let direction = sweep_direction(car, queue);
    let plan = sweep_plan(queue, direction);
    lemma_sweep_plan_is_plan(queue, direction);
    let at = choose|at: int| 0 <= at < queue.len() && queue[at] == r;
    assert(names_floor(queue[at], direction, r.boarding_floor));
    assert(names_floor(queue[at], direction, r.desired_floor));
    assert(plan.contains(r.boarding_floor));
    assert(plan.contains(r.desired_floor));
    let boards = choose|k: int| 0 <= k < plan.len() && plan[k] == r.boarding_floor;
    let leaves = choose|k: int| 0 <= k < plan.len() && plan[k] == r.desired_floor;
    assert(boards != leaves);
    assert(plan[0] != plan[plan.len() - 1]);
    if stays_put(car.floor, plan) {
        assert(plan[0] == car.floor && plan[plan.len() - 1] == car.floor);
    }
}

/// A car that has swept rests idle.
pub proof fn lemma_run_ends_idle(car: CarView, queue: Seq<ElevatorRequest>, sweeps: nat)
    requires
        queue.len() > 0,
        sweeps > 0,
    ensures
        car_after(car, queue, sweeps).state == ElevatorState::Idle,
        car_after(car, queue, sweeps).direction == ElevatorDirection::Rest,
    decreases sweeps,
{
    reveal_with_fuel(car_after, 2);
    let next_car = sweep_car(car, queue);
    let next_queue = sweep_queue(car, queue);
    if next_queue.len() > 0 && sweeps > 1 {
        lemma_run_ends_idle(next_car, next_queue, (sweeps - 1) as nat);
    }
}

/// A queue of serviceable requests is empty after two sweeps at most: one
/// for each direction.
pub proof fn lemma_serviceable_queue_drains(car: CarView, queue: Seq<ElevatorRequest>)
    requires
        all_serviceable(queue),
    ensures
        drains_within(car, queue, 2),
{
    reveal_with_fuel(drains_within, 3);
    if queue.len() > 0 {
        let first = sweep_direction(car, queue);
        let car1 = sweep_car(car, queue);
        let queue1 = sweep_queue(car, queue);
        assert forall|i: int| 0 <= i < queue1.len() implies (#[trigger] queue1[i]).serviceable()
            && queue1[i].direction != first by {
            let r = queue1[i];
            assert(queue1.contains(r));
            lemma_route_queue_holds(car.floor, queue, sweep_plan(queue, first), first, r);
            let at = choose|at: int| 0 <= at < queue.len() && queue[at] == r;
            assert(queue[at].serviceable());
            if r.direction == first {
                lemma_serviceable_is_not_missed(car, queue, r);
                lemma_sweep_serves_its_direction(car, queue, r);
            }
        }
        if queue1.len() > 0 {
            let second = sweep_direction(car1, queue1);
            let queue2 = sweep_queue(car1, queue1);
            assert(second == queue1[0].direction);
            if queue2.len() > 0 {
                let r = queue2[0];
                assert(queue2.contains(r));
                lemma_route_queue_holds(car1.floor, queue1, sweep_plan(queue1, second), second, r);
                let at = choose|at: int| 0 <= at < queue1.len() && queue1[at] == r;
                assert(queue1[at].serviceable());
                assert(r.direction == second);
                lemma_serviceable_is_not_missed(car1, queue1, r);
                lemma_sweep_serves_its_direction(car1, queue1, r);
            }
        }
    }
}

/// The sweep of its direction never misses a serviceable request: the
/// boarding floor comes before the desired floor, which is therefore not the
/// first stop.
pub proof fn lemma_serviceable_is_not_missed(
    car: CarView,
    queue: Seq<ElevatorRequest>,
    r: ElevatorRequest,
)
    requires
        queue.contains(r),
        r.serviceable(),
    ensures
        !missed_at_start(car, queue, r),
{
    let direction = sweep_direction(car, queue);
    let plan = sweep_plan(queue, direction);
    if r.direction == direction {
        lemma_sweep_plan_is_plan(queue, direction);
        let at = choose|at: int| 0 <= at < queue.len() && queue[at] == r;
        assert(names_floor(queue[at], direction, r.boarding_floor));
        assert(plan.contains(r.boarding_floor));
        let boards = choose|k: int| 0 <= k < plan.len() && plan[k] == r.boarding_floor;
        if boards > 0 {
            assert(plan[0] != plan[boards]);
        }
    }
}

/// A run over requests of one direction, each with two different floors,
/// takes two sweeps at most, whatever the floor the resting car sets out
/// from. Where the first sweep misses no request, it is the only one, and
/// the car ends at the highest floor that a request names on the way up, at
/// the lowest on the way down, idle and with the door closed.
pub proof fn lemma_one_way_run(
    car: CarView,
    queue: Seq<ElevatorRequest>,
    direction: ElevatorDirection,
    floor: i16,
)
    requires
        queue.len() > 0,
        car.direction == ElevatorDirection::Rest,
        all_heading(queue, direction),
        all_travel(queue),
        floor_requested(queue, direction, floor),
    ensures
        drains_within(car, queue, 2),
        car_after(car, queue, 2).state == ElevatorState::Idle,
        car_after(car, queue, 2).direction == ElevatorDirection::Rest,
        !car_after(car, queue, 2).door_open,
        (forall|i: int| 0 <= i < queue.len() ==> !missed_at_start(car, queue, #[trigger] queue[i]))
            ==> {
            &&& drains_within(car, queue, 1)
            &&& floor_requested(queue, direction, car_after(car, queue, 2).floor as i16)
            &&& direction == ElevatorDirection::Down ==> car_after(car, queue, 2).floor <= floor
            &&& direction != ElevatorDirection::Down ==> car_after(car, queue, 2).floor >= floor
        },
{
    reveal_with_fuel(drains_within, 3);
    reveal_with_fuel(car_after, 3);
    let plan = sweep_plan(queue, direction);
    let car1 = sweep_car(car, queue);
    let queue1 = sweep_queue(car, queue);
    assert(sweep_direction(car, queue) == queue[0].direction);
    assert(queue.contains(queue[0]));
    lemma_sweep_moves(car, queue, queue[0]);
    lemma_sweep_ends_at_last_stop(car, queue, floor);
    assert forall|i: int| 0 <= i < queue1.len() implies queue.contains(#[trigger] queue1[i])
        && missed_at_start(car, queue, queue1[i]) by {
        let r = queue1[i];
        assert(queue1.contains(r));
        lemma_route_queue_holds(car.floor, queue, plan, direction, r);
        let at = choose|at: int| 0 <= at < queue.len() && queue[at] == r;
        assert(queue[at].direction == direction);
        lemma_sweep_serves_its_direction(car, queue, r);
    }
    if queue1.len() > 0 {
        let queue2 = sweep_queue(car1, queue1);
        let car2 = sweep_car(car1, queue1);
        assert(queue.contains(queue1[0]));
        let at0 = choose|at: int| 0 <= at < queue.len() && queue[at] == queue1[0];
        assert(queue[at0].direction == direction);
        assert(sweep_direction(car1, queue1) == direction);
        assert(queue1.contains(queue1[0]));
        assert(queue[at0].boarding_floor != queue[at0].desired_floor);
        lemma_sweep_moves(car1, queue1, queue1[0]);
        if queue2.len() > 0 {
            let r = queue2[0];
            assert(queue2.contains(r));
            lemma_route_queue_holds(car1.floor, queue1, sweep_plan(queue1, direction), direction, r);
            let at1 = choose|at: int| 0 <= at < queue1.len() && queue1[at] == r;
            assert(missed_at_start(car, queue, queue1[at1]));
            assert(queue.contains(queue1[at1]));
            lemma_sweep_serves_its_direction(car1, queue1, r);
            assert(r.desired_floor == plan[0]);
            assert(car1.floor != plan[0]);
        }
    }
    if forall|i: int| 0 <= i < queue.len() ==> !missed_at_start(car, queue, #[trigger] queue[i]) {
        if queue1.len() > 0 {
            let at = choose|at: int| 0 <= at < queue.len() && queue[at] == queue1[0];
            assert(!missed_at_start(car, queue, queue[at]));
        }
    }
}

/// A filter that keeps as many items as there are keeps them all.
pub proof fn lemma_filter_keeps_all(queue: Seq<ElevatorRequest>, keep: spec_fn(ElevatorRequest) -> bool)
    requires
        queue.filter(keep).len() == queue.len(),
    ensures
        queue.filter(keep) == queue,
    decreases queue.len(),
{
    reveal(Seq::filter);
    if queue.len() > 0 {
        let front = queue.drop_last();
        front.lemma_filter_len(keep);
        lemma_filter_keeps_all(front, keep);
        assert(queue =~= front.push(queue.last()));
    }
}

/// A route never adds to the queue, and a route that completes no request
/// leaves the queue as it is.
pub proof fn lemma_route_queue_shrinks(
    from: int,
    queue: Seq<ElevatorRequest>,
    plan: Seq<i16>,
    heading: ElevatorDirection,
)
    ensures
        route_queue(from, queue, plan, heading).len() <= queue.len(),
        route_queue(from, queue, plan, heading).len() == queue.len() ==> route_queue(
            from,
            queue,
            plan,
            heading,
        ) == queue,
    decreases plan.len(),
{
    if plan.len() > 0 {
        let first = plan[0] as int;
        let keep = |r: ElevatorRequest| !completes(r, first, heading);
        let next = leg_queue(from, queue, first, heading);
        queue.lemma_filter_len(keep);
        lemma_route_queue_shrinks(first, next, plan.drop_first(), heading);
        if route_queue(from, queue, plan, heading).len() == queue.len() && from != first {
            lemma_filter_keeps_all(queue, keep);
        }
    }
}

/// What the car and the queue are after one sweep more.
pub proof fn lemma_one_more_sweep(car: CarView, queue: Seq<ElevatorRequest>, sweeps: nat)
    requires
        queue_after(car, queue, sweeps).len() > 0,
    ensures
        car_after(car, queue, sweeps + 1) == sweep_car(
            car_after(car, queue, sweeps),
            queue_after(car, queue, sweeps),
        ),
        queue_after(car, queue, sweeps + 1) == sweep_queue(
            car_after(car, queue, sweeps),
            queue_after(car, queue, sweeps),
        ),
    decreases sweeps,
{
    reveal_with_fuel(car_after, 2);
    reveal_with_fuel(queue_after, 2);
    if sweeps > 0 {
        lemma_one_more_sweep(sweep_car(car, queue), sweep_queue(car, queue), (sweeps - 1) as nat);
    }
}

/// The queue is empty after `sweeps` sweeps exactly where so many sweeps
/// empty it.
pub proof fn lemma_drained_is_empty_after(car: CarView, queue: Seq<ElevatorRequest>, sweeps: nat)
    ensures
        drains_within(car, queue, sweeps) <==> queue_after(car, queue, sweeps).len() == 0,
    decreases sweeps,
{
    if queue.len() > 0 && sweeps > 0 {
        lemma_drained_is_empty_after(
            sweep_car(car, queue),
            sweep_queue(car, queue),
            (sweeps - 1) as nat,
        );
    }
}

/// A run that takes `sweeps` sweeps to empty the queue still has to empty,
/// after `done` of them, what is then pending.
pub proof fn lemma_drains_later(
    car: CarView,
    queue: Seq<ElevatorRequest>,
    sweeps: nat,
    done: nat,
)
    requires
        drains_within(car, queue, sweeps),
        queue_after(car, queue, done).len() > 0,
    ensures
        sweeps > done,
        drains_within(
            car_after(car, queue, done),
            queue_after(car, queue, done),
            (sweeps - done) as nat,
        ),
    decreases done,
{
    if done > 0 {
        lemma_drains_later(
            sweep_car(car, queue),
            sweep_queue(car, queue),
            (sweeps - 1) as nat,
            (done - 1) as nat,
        );
    }
}

/// Whether so many sweeps empty the queue depends on the car's floor and
/// direction only.
pub proof fn lemma_drains_depends_on_place(
    car: CarView,
    other: CarView,
    queue: Seq<ElevatorRequest>,
    sweeps: nat,
)
    requires
        car.floor == other.floor,
        car.direction == other.direction,
    ensures
        drains_within(car, queue, sweeps) == drains_within(other, queue, sweeps),
    decreases sweeps,
{
    if queue.len() > 0 && sweeps > 0 {
        lemma_drains_depends_on_place(
            sweep_car(car, queue),
            sweep_car(other, queue),
            sweep_queue(car, queue),
            (sweeps - 1) as nat,
        );
    }
}

/// A car that stands still never empties the queue.
pub proof fn lemma_standing_still_never_drains(
    car: CarView,
    queue: Seq<ElevatorRequest>,
    sweeps: nat,
)
    requires
        stands_still(car, queue),
    ensures
        !drains_within(car, queue, sweeps),
    decreases sweeps,
{
    if sweeps > 0 {
        let direction = sweep_direction(car, queue);
        let plan = sweep_plan(queue, direction);
        lemma_route_stays(car.floor, queue, plan, direction);
        lemma_standing_still_never_drains(car, queue, (sweeps - 1) as nat);
        lemma_drains_depends_on_place(sweep_car(car, queue), car, queue, (sweeps - 1) as nat);
    }
}

/// A car that never has to move completes no request.
pub proof fn lemma_route_stays(
    from: int,
    queue: Seq<ElevatorRequest>,
    plan: Seq<i16>,
    heading: ElevatorDirection,
)
    requires
        stays_put(from, plan),
    ensures
        route_queue(from, queue, plan, heading) == queue,
    decreases plan.len(),
{
    if plan.len() > 0 {
        let later = plan.drop_first();
        assert(plan[0] == from);
        assert forall|i: int| 0 <= i < later.len() implies later[i] == from by {
            assert(later[i] == plan[i + 1]);
        }
        lemma_route_stays(from, queue, later, heading);
    }
}

/// After a sweep of a resting car that moved the car and completed nothing,
/// the next sweep completes a request: the car has left the floor where it
/// missed the first pending request, and comes back to it.
pub proof fn lemma_second_sweep_completes(car: CarView, queue: Seq<ElevatorRequest>)
    requires
        queue.len() > 0,
        car.direction == ElevatorDirection::Rest,
        !stays_put(car.floor, sweep_plan(queue, queue[0].direction)),
        sweep_queue(car, queue).len() == queue.len(),
    ensures
        sweep_queue(car, queue) == queue,
        sweep_queue(sweep_car(car, queue), queue).len() < queue.len(),
{
    let direction = queue[0].direction;
    let plan = sweep_plan(queue, direction);
    let car1 = sweep_car(car, queue);
    lemma_sweep_plan_is_plan(queue, direction);
    lemma_route_queue_shrinks(car.floor, queue, plan, direction);
    assert(queue.contains(queue[0]));
    lemma_sweep_serves_its_direction(car, queue, queue[0]);
    assert(missed_at_start(car, queue, queue[0]));
    if plan.len() == 1 {
        assert(stays_put(car.floor, plan));
    }
    assert(plan[plan.len() - 1] != plan[0]);
    assert(sweep_direction(car1, queue) == direction);
    lemma_sweep_serves_its_direction(car1, queue, queue[0]);
    lemma_route_queue_shrinks(car1.floor, queue, plan, direction);
}

/// Sweeps that empty the queue still do with more sweeps allowed.
pub proof fn lemma_drains_with_more(
    car: CarView,
    queue: Seq<ElevatorRequest>,
    sweeps: nat,
    more: nat,
)
    requires
        drains_within(car, queue, sweeps),
        sweeps <= more,
    ensures
        drains_within(car, queue, more),
    decreases sweeps,
{
    if queue.len() > 0 {
        lemma_drains_with_more(
            sweep_car(car, queue),
            sweep_queue(car, queue),
            (sweeps - 1) as nat,
            (more - 1) as nat,
        );
    }
}

/// A run of a resting car ends unless the car comes to stand still: two
/// sweeps for each pending request empty the queue, or after some sweeps the
/// car stands still.
pub proof fn lemma_resting_run_ends_or_stands_still(car: CarView, queue: Seq<ElevatorRequest>)
    requires
        car.direction == ElevatorDirection::Rest,
    ensures
        drains_within(car, queue, 2 * queue.len()) || exists|done: nat|
            stands_still(
                car_after(car, queue, done),
                #[trigger] queue_after(car, queue, done),
            ),
    decreases queue.len(),
{
    reveal_with_fuel(drains_within, 3);
    reveal_with_fuel(car_after, 3);
    reveal_with_fuel(queue_after, 3);
    if queue.len() == 0 {
    } else if stands_still(car, queue) {
        assert(stands_still(car_after(car, queue, 0), queue_after(car, queue, 0)));
    } else {
        let direction = queue[0].direction;
        let plan = sweep_plan(queue, direction);
        let car1 = sweep_car(car, queue);
        let queue1 = sweep_queue(car, queue);
        lemma_route_queue_shrinks(car.floor, queue, plan, direction);
        if queue1.len() < queue.len() {
            lemma_resting_run_ends_or_stands_still(car1, queue1);
            if drains_within(car1, queue1, 2 * queue1.len()) {
                lemma_drains_with_more(car1, queue1, 2 * queue1.len(), (2 * queue.len() - 1) as nat);
            } else {
                let done = choose|done: nat|
                    stands_still(
                        car_after(car1, queue1, done),
                        #[trigger] queue_after(car1, queue1, done),
                    );
                assert(stands_still(
                    car_after(car, queue, done + 1),
                    queue_after(car, queue, done + 1),
                ));
            }
        } else {
            lemma_second_sweep_completes(car, queue);
            let car2 = sweep_car(car1, queue);
            let queue2 = sweep_queue(car1, queue);
            lemma_resting_run_ends_or_stands_still(car2, queue2);
            if drains_within(car2, queue2, 2 * queue2.len()) {
                lemma_drains_with_more(car2, queue2, 2 * queue2.len(), (2 * queue.len() - 2) as nat);
            } else {
                let done = choose|done: nat|
                    stands_still(
                        car_after(car2, queue2, done),
                        #[trigger] queue_after(car2, queue2, done),
                    );
                assert(stands_still(
                    car_after(car, queue, done + 2),
                    queue_after(car, queue, done + 2),
                ));
            }
        }
    }
}

/// A run ends unless the car comes to stand still, and only then: some
/// number of sweeps empties the queue exactly where the car never comes to
/// stand still, and two sweeps for each pending request and one more are
/// then enough.
pub proof fn lemma_run_ends_unless_the_car_stands_still(car: CarView, queue: Seq<ElevatorRequest>)
    ensures
        (exists|sweeps: nat| drains_within(car, queue, sweeps)) <==> !exists|done: nat|
            stands_still(
                car_after(car, queue, done),
                #[trigger] queue_after(car, queue, done),
            ),
        (exists|sweeps: nat| drains_within(car, queue, sweeps)) ==> drains_within(
            car,
            queue,
            2 * queue.len() + 1,
        ),
{
    reveal_with_fuel(drains_within, 2);
    reveal_with_fuel(car_after, 2);
    reveal_with_fuel(queue_after, 2);
    let never_still = !exists|done: nat|
        stands_still(car_after(car, queue, done), #[trigger] queue_after(car, queue, done));
    if exists|sweeps: nat| drains_within(car, queue, sweeps) {
        let sweeps = choose|sweeps: nat| drains_within(car, queue, sweeps);
        assert forall|done: nat|
            !stands_still(
                car_after(car, queue, done),
                #[trigger] queue_after(car, queue, done),
            ) by {
            if stands_still(car_after(car, queue, done), queue_after(car, queue, done)) {
                lemma_drains_later(car, queue, sweeps, done);
                lemma_standing_still_never_drains(
                    car_after(car, queue, done),
                    queue_after(car, queue, done),
                    (sweeps - done) as nat,
                );
            }
        }
    }
    if never_still {
        if queue.len() > 0 {
            let car1 = sweep_car(car, queue);
            let queue1 = sweep_queue(car, queue);
            lemma_route_queue_shrinks(
                car.floor,
                queue,
                sweep_plan(queue, sweep_direction(car, queue)),
                sweep_direction(car, queue),
            );
            lemma_resting_run_ends_or_stands_still(car1, queue1);
            if drains_within(car1, queue1, 2 * queue1.len()) {
                lemma_drains_with_more(car1, queue1, 2 * queue1.len(), 2 * queue.len());
            } else {
                let done = choose|done: nat|
                    stands_still(
                        car_after(car1, queue1, done),
                        #[trigger] queue_after(car1, queue1, done),
                    );
                assert(stands_still(
                    car_after(car, queue, done + 1),
                    queue_after(car, queue, done + 1),
                ));
            }
        }
        assert(drains_within(car, queue, 2 * queue.len() + 1));
    }
}

} // verus!
