use vstd::prelude::*;

use crate::car::{CarView, ElevatorState, TripEvent};
use crate::direction::{resolve_direction, ElevatorDirection};
use crate::plan::sweep_plan;
use crate::request::ElevatorRequest;

verus! {

/// A request is complete when the car stops at its desired floor on a sweep
/// in the direction the passenger asked for. On a sweep in another direction
/// the request stays pending, also where the car stops at its desired floor:
/// the sweep of its own direction has yet to serve it.
pub open spec fn completes(r: ElevatorRequest, floor: int, heading: ElevatorDirection) -> bool {
    r.desired_floor == floor && r.direction == heading
}

/// The requests that stay pending after the car, on a sweep in `heading`,
/// has stopped at `floor`: all but the completed ones, in their order.
pub open spec fn remaining(
    queue: Seq<ElevatorRequest>,
    floor: int,
    heading: ElevatorDirection,
) -> Seq<ElevatorRequest> {
    queue.filter(|r: ElevatorRequest| !completes(r, floor, heading))
}

/// The queue after the car, on a sweep in `heading`, has travelled from
/// `from` to `target`. A car that is already there does not stop again.
pub open spec fn leg_queue(
    from: int,
    queue: Seq<ElevatorRequest>,
    target: int,
    heading: ElevatorDirection,
) -> Seq<ElevatorRequest> {
    if from == target {
        queue
    } else {
        remaining(queue, target, heading)
    }
}

/// The queue after the car, starting at `from` on a sweep in `heading`, has
/// visited the floors of `plan` in turn.
pub open spec fn route_queue(
    from: int,
    queue: Seq<ElevatorRequest>,
    plan: Seq<i16>,
    heading: ElevatorDirection,
) -> Seq<ElevatorRequest>
    decreases plan.len(),
{
    if plan.len() == 0 {
        queue
    } else {
        route_queue(
            plan[0] as int,
            leg_queue(from, queue, plan[0] as int, heading),
            plan.drop_first(),
            heading,
        )
    }
}

/// The car, having started at `from`, has to travel to come to the stop of
/// `plan` at `index`, and so stops there.
pub open spec fn stops_at(from: int, plan: Seq<i16>, index: int) -> bool {
    let before = if index == 0 {
        from
    } else {
        plan[index - 1] as int
    };
    before != plan[index]
}

/// The car, on its way from `from` through the floors of `plan` on a sweep
/// in `heading`, stops at the floor at `index` and completes the request
/// there.
pub open spec fn stop_serves(
    r: ElevatorRequest,
    from: int,
    plan: Seq<i16>,
    index: int,
    heading: ElevatorDirection,
) -> bool {
    stops_at(from, plan, index) && completes(r, plan[index] as int, heading)
}

/// The car, on its way from `from` through the floors of `plan` on a sweep
/// in `heading`, completes the request at one of its stops.
pub open spec fn served_on_route(
    r: ElevatorRequest,
    from: int,
    plan: Seq<i16>,
    heading: ElevatorDirection,
) -> bool {
    exists|index: int|
        0 <= index < plan.len() && #[trigger] stop_serves(r, from, plan, index, heading)
}

/// The distance between two floors.
pub open spec fn distance(from: int, to: int) -> nat {
    if from <= to {
        (to - from) as nat
    } else {
        (from - to) as nat
    }
}

/// What the journal records on the way from `from` to `target`: every floor
/// in between as passed, one floor after the other, then `target` as reached.
pub open spec fn leg_events(from: int, target: int) -> Seq<TripEvent>
    decreases distance(from, target),
{
    if from == target {
        Seq::empty()
    } else {
        let next = from + resolve_direction(from, target).step();
        let event = if next == target {
            TripEvent::Reached(next as i16)
        } else {
            TripEvent::Passed(next as i16)
        };
        seq![event] + leg_events(next, target)
    }
}

/// What the journal records while the car, starting at `from`, visits the
/// floors of `plan` in turn.
pub open spec fn route_events(from: int, plan: Seq<i16>) -> Seq<TripEvent>
    decreases plan.len(),
{
    if plan.len() == 0 {
        Seq::empty()
    } else {
        leg_events(from, plan[0] as int) + route_events(plan[0] as int, plan.drop_first())
    }
}

/// The car never has to move to visit the floors of `plan`.
pub open spec fn stays_put(floor: int, plan: Seq<i16>) -> bool {
    forall|i: int| 0 <= i < plan.len() ==> plan[i] == floor
}

/// The car after it has visited the floors of `plan` in turn: it rests idle
/// at the last of them, and its door is closed unless it was open and the
/// car never moved.
pub open spec fn route_car(car: CarView, plan: Seq<i16>) -> CarView {
    CarView {
        floor: if plan.len() == 0 {
            car.floor
        } else {
            plan.last() as int
        },
        direction: ElevatorDirection::Rest,
        state: ElevatorState::Idle,
        door_open: car.door_open && stays_put(car.floor, plan),
        journal: car.journal + route_events(car.floor, plan),
        ..car
    }
}

/// The direction of the next sweep: the car's own while it has one, else
/// that of the first pending request.
pub open spec fn sweep_direction(car: CarView, queue: Seq<ElevatorRequest>) -> ElevatorDirection {
    if car.direction == ElevatorDirection::Rest {
        queue[0].direction
    } else {
        car.direction
    }
}

/// The car after one sweep over a queue that is not empty.
pub open spec fn sweep_car(car: CarView, queue: Seq<ElevatorRequest>) -> CarView {
    route_car(car, sweep_plan(queue, sweep_direction(car, queue)))
}

/// The queue after one sweep over a queue that is not empty.
pub open spec fn sweep_queue(car: CarView, queue: Seq<ElevatorRequest>) -> Seq<ElevatorRequest> {
    route_queue(
        car.floor,
        queue,
        sweep_plan(queue, sweep_direction(car, queue)),
        sweep_direction(car, queue),
    )
}

/// The request is for the direction of the next sweep, and the sweep sets
/// out from the request's desired floor as its first stop. The car is there
/// already and does not stop, so that sweep leaves the request pending.
pub open spec fn missed_at_start(
    car: CarView,
    queue: Seq<ElevatorRequest>,
    r: ElevatorRequest,
) -> bool {
    let plan = sweep_plan(queue, sweep_direction(car, queue));
    &&& r.direction == sweep_direction(car, queue)
    &&& r.desired_floor == car.floor
    &&& plan.len() > 0
    &&& plan[0] == car.floor
}

/// Every request of the queue is for `direction`.
pub open spec fn all_heading(queue: Seq<ElevatorRequest>, direction: ElevatorDirection) -> bool {
    forall|i: int| 0 <= i < queue.len() ==> (#[trigger] queue[i]).direction == direction
}

/// No request of the queue wants to leave where it boards.
pub open spec fn all_travel(queue: Seq<ElevatorRequest>) -> bool {
    forall|i: int|
        0 <= i < queue.len() ==> (#[trigger] queue[i]).boarding_floor != queue[i].desired_floor
}

/// Every request of the queue asks for the way that leads from its boarding
/// floor to its desired floor.
pub open spec fn all_serviceable(queue: Seq<ElevatorRequest>) -> bool {
    forall|i: int| 0 <= i < queue.len() ==> (#[trigger] queue[i]).serviceable()
}

/// At most `sweeps` sweeps empty the queue.
pub open spec fn drains_within(car: CarView, queue: Seq<ElevatorRequest>, sweeps: nat) -> bool
    decreases sweeps,
{
    queue.len() == 0 || (sweeps > 0 && drains_within(
        sweep_car(car, queue),
        sweep_queue(car, queue),
        (sweeps - 1) as nat,
    ))
}

/// The car after it has swept until the queue was empty, or `sweeps` times.
pub open spec fn car_after(car: CarView, queue: Seq<ElevatorRequest>, sweeps: nat) -> CarView
    decreases sweeps,
{
    if queue.len() == 0 || sweeps == 0 {
        car
    } else {
        car_after(sweep_car(car, queue), sweep_queue(car, queue), (sweeps - 1) as nat)
    }
}

/// The queue after the car has swept until it was empty, or `sweeps` times.
pub open spec fn queue_after(car: CarView, queue: Seq<ElevatorRequest>, sweeps: nat) -> Seq<
    ElevatorRequest,
>
    decreases sweeps,
{
    if queue.len() == 0 || sweeps == 0 {
        queue
    } else {
        queue_after(sweep_car(car, queue), sweep_queue(car, queue), (sweeps - 1) as nat)
    }
}

/// The car rests, and the requests for the direction of the first pending
/// request name no floor but the car's own. The next sweep does not move the
/// car and completes nothing, and so does every sweep after it.
pub open spec fn stands_still(car: CarView, queue: Seq<ElevatorRequest>) -> bool {
    &&& queue.len() > 0
    &&& car.direction == ElevatorDirection::Rest
    &&& stays_put(car.floor, sweep_plan(queue, queue[0].direction))
}

/// Once the queue is empty, further sweeps change nothing: any two numbers
/// of sweeps that empty the queue leave the same car.
pub proof fn lemma_car_after_settles(
    car: CarView,
    queue: Seq<ElevatorRequest>,
    sweeps: nat,
    more: nat,
)
    requires
        drains_within(car, queue, sweeps),
        drains_within(car, queue, more),
    ensures
        car_after(car, queue, sweeps) == car_after(car, queue, more),
    decreases sweeps,
{
    if queue.len() > 0 {
        lemma_car_after_settles(
            sweep_car(car, queue),
            sweep_queue(car, queue),
            (sweeps - 1) as nat,
            (more - 1) as nat,
        );
    }
}

} // verus!
