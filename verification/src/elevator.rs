use vstd::prelude::*;

use crate::boarding::{call_buttons, BoardingController};
use crate::cabin::{CabinController, FloorButton};
use crate::car::{CarView, ElevatorError, ElevatorState, TripEvent};
use crate::direction::{resolve_direction, ElevatorDirection};
use crate::plan::floor_sequence;
use crate::request::ElevatorRequest;
use crate::laws::{
    lemma_drained_is_empty_after, lemma_drains_later, lemma_one_more_sweep,
    lemma_route_queue_shrinks, lemma_second_sweep_completes, lemma_standing_still_never_drains,
};
use crate::plan::names_floor;
use crate::route::{
    car_after, distance, drains_within, leg_events, lemma_car_after_settles, queue_after,
    remaining, route_car, route_events, route_queue, stands_still, stays_put, sweep_car,
    sweep_direction, sweep_queue,
};

verus! {

/// A single elevator car.
///
/// The door and the travel journal are the car's own: the door opens only
/// through `open_door`, and only the car writes the journal.
pub struct Elevator {
    pub current_floor: i16,
    pub state: ElevatorState,
    pub direction: ElevatorDirection,
    is_door_open: bool,
    journal: Vec<TripEvent>,
    pub cabin_ctrl: CabinController,
    pub boarding_ctrls: Vec<BoardingController>,
}

impl View for Elevator {
    type V = CarView;

    closed spec fn view(&self) -> CarView {
        CarView {
            floor: self.current_floor as int,
            direction: self.direction,
            state: self.state,
            door_open: self.is_door_open,
            journal: self.journal@,
            cabin_buttons: self.cabin_ctrl.buttons@,
            call_buttons: self.boarding_ctrls@,
        }
    }
}

/// Takes the completed requests out of the queue after the car, on a sweep
/// in `heading`, has stopped at `floor`.
fn discharge(queue: &mut Vec<ElevatorRequest>, floor: i16, heading: ElevatorDirection)
    ensures
        final(queue)@ == remaining(old(queue)@, floor as int, heading),
{
    let mut kept: Vec<ElevatorRequest> = Vec::new();
    let mut i: usize = 0;
    while i < queue.len()
        invariant
            i <= queue.len(),
            kept@ == remaining(queue@.take(i as int), floor as int, heading),
        decreases queue.len() - i,
    {
        let r = queue[i];
        proof {
            reveal(Seq::filter);
            assert(queue@.take(i + 1).drop_last() =~= queue@.take(i as int));
        }
        if !(r.desired_floor == floor && r.direction == heading) {
            kept.push(r);
        }
        i = i + 1;
    }
    proof {
        assert(queue@.take(i as int) =~= queue@);
    }
    *queue = kept;
}

impl Elevator {
    /// The floor the car is at.
    pub fn floor(&self) -> (floor: i16)
        ensures
            floor == self@.floor,
    {
        self.current_floor
    }

    /// The way the car travels.
    pub fn direction(&self) -> (direction: ElevatorDirection)
        ensures
            direction == self@.direction,
    {
        self.direction
    }

    /// What the car is doing.
    pub fn state(&self) -> (state: ElevatorState)
        ensures
            state == self@.state,
    {
        self.state
    }

    /// The floor of a car is one that `i16` holds.
    pub proof fn lemma_floor_in_range(&self)
        ensures
            i16::MIN <= self@.floor <= i16::MAX,
    {
    }

    /// Whether the door is open.
    pub fn is_door_open(&self) -> (open: bool)
        ensures
            open == self@.door_open,
    {
        self.is_door_open
    }

    /// The travel journal: every floor the car passed or reached, oldest
    /// first.
    pub fn journal(&self) -> (events: &Vec<TripEvent>)
        ensures
            events@ == self@.journal,
    {
        &self.journal
    }

    /// Opens or closes the door. The door opens only while the car is
    /// boarding, and a request to open it at any other time is ignored. It
    /// always closes.
    pub fn open_door(&mut self, should_open: bool)
        ensures
            final(self)@ == (CarView {
                door_open: should_open && (old(self)@.door_open || old(self)@.state
                    == ElevatorState::Boarding),
                ..old(self)@
            }),
            final(self)@.door_open && !old(self)@.door_open ==> should_open && old(self)@.state
                == ElevatorState::Boarding,
            !should_open && !old(self)@.door_open ==> final(self)@ == old(self)@,
            should_open && old(self)@.state != ElevatorState::Boarding ==> final(self)@ == old(
                self,
            )@,
    {
        let can_open = self.state == ElevatorState::Boarding;
        if should_open {
            if can_open {
                self.is_door_open = true;
            }
        } else {
            self.is_door_open = false;
        }
    }

    /// Moves the car one floor in its direction. A car with an open door
    /// does not move.
    pub fn next_floor(&mut self) -> (res: Result<(), ElevatorError>)
        requires
            !old(self)@.door_open ==> i16::MIN <= old(self)@.floor + old(self)@.direction.step()
                <= i16::MAX,
        ensures
            old(self)@.door_open ==> res == Err::<(), ElevatorError>(
                ElevatorError::MoveRequestWithDoorOpen,
            ) && final(self)@ == old(self)@,
            !old(self)@.door_open ==> res == Ok::<(), ElevatorError>(()) && final(self)@ == (CarView {
                floor: old(self)@.floor + old(self)@.direction.step(),
                ..old(self)@
            }),
    {
        if self.is_door_open {
            return Err(ElevatorError::MoveRequestWithDoorOpen);
        }
        self.current_floor = self.current_floor + self.direction.as_step();
        Ok(())
    }

    /// Lets passengers on and off: the car is boarding, the door opens and
    /// closes again.
    pub fn board_cabin(&mut self)
        ensures
            final(self)@ == (CarView {
                state: ElevatorState::Boarding,
                door_open: false,
                ..old(self)@
            }),
            !final(self)@.door_open,
    {
        self.state = ElevatorState::Boarding;
        self.open_door(true);
        self.open_door(false);
    }

    /// Points the car towards floor `dest`.
    pub fn set_direction(&mut self, dest: i16)
        ensures
            final(self)@ == (CarView {
                direction: resolve_direction(old(self)@.floor, dest as int),
                ..old(self)@
            }),
    {
        self.direction = Elevator::get_direction(self.current_floor, dest);
    }

    /// The direction that leads from floor `current` towards floor `target`.
    pub fn get_direction(current: i16, target: i16) -> (direction: ElevatorDirection)
        ensures
            direction == resolve_direction(current as int, target as int),
            direction == ElevatorDirection::Up <==> current < target,
            direction == ElevatorDirection::Down <==> current > target,
            direction == ElevatorDirection::Rest <==> current == target,
    {
        if current < target {
            ElevatorDirection::Up
        } else if current > target {
            ElevatorDirection::Down
        } else {
            ElevatorDirection::Rest
        }
    }

    /// Fits the car for a building with floors `1` to `num_floors`. The car
    /// must not stand above them.
    pub fn with_floors(self, num_floors: i16) -> (car: Self)
        requires
            self@.floor <= num_floors,
        ensures
            car@ == (CarView {
                cabin_buttons: Seq::<FloorButton>::empty(),
                call_buttons: call_buttons(num_floors as int),
                ..self@
            }),
    {
        let mut car = self;
        let room: i16 = if num_floors < 0 {
            0
        } else {
            num_floors
        };
        car.cabin_ctrl = CabinController::new(room);
        car.boarding_ctrls = BoardingController::new(num_floors);
        car
    }

    /// Puts the car at floor `current_floor`.
    pub fn set_current_floor(self, current_floor: i16) -> (car: Self)
        ensures
            car@ == (CarView { floor: current_floor as int, ..self@ }),
    {
        let mut car = self;
        car.current_floor = current_floor;
        car
    }

    /// Visits the floors of `floor_sequence_ord` in turn, one floor at a
    /// time and with the door closed. The direction the car has when it sets
    /// out is the direction of the sweep. At each of the floors the car
    /// stops, the requests for that direction whose desired floor it is
    /// leave the queue, and passengers board. Afterwards the car rests idle.
    pub fn traverse_route(
        &mut self,
        floor_sequence_ord: Vec<i16>,
        request_queue: &mut Vec<ElevatorRequest>,
    ) -> (res: Result<(), ElevatorError>)
        ensures
            res == Ok::<(), ElevatorError>(()),
            final(self)@ == route_car(old(self)@, floor_sequence_ord@),
            final(request_queue)@ == route_queue(
                old(self)@.floor,
                old(request_queue)@,
                floor_sequence_ord@,
                old(self)@.direction,
            ),
    {
        let ghost plan = floor_sequence_ord@;
        let ghost start = self@;
        let ghost pending = request_queue@;
        let heading = self.direction;
        self.state = ElevatorState::Enroute;
        let mut i: usize = 0;
        proof {
            assert(plan.skip(0) =~= plan);
        }
        while i < floor_sequence_ord.len()
            invariant
                plan == floor_sequence_ord@,
                i <= plan.len(),
                self@.floor == if i == 0 {
                    start.floor
                } else {
                    plan[i - 1] as int
                },
                self@.door_open == (start.door_open && forall|j: int|
                    0 <= j < i ==> plan[j] == start.floor),
                self@.cabin_buttons == start.cabin_buttons,
                self@.call_buttons == start.call_buttons,
                start.journal + route_events(start.floor, plan) == self@.journal + route_events(
                    self@.floor,
                    plan.skip(i as int),
                ),
                heading == start.direction,
                route_queue(start.floor, pending, plan, heading) == route_queue(
                    self@.floor,
                    request_queue@,
                    plan.skip(i as int),
                    heading,
                ),
            decreases plan.len() - i,
        {
            let target = floor_sequence_ord[i];
            self.set_direction(target);
            let ghost leg = self@;
            let ghost waiting = request_queue@;
            while self.current_floor != target
                invariant
                    self@.direction == leg.direction,
                    leg.direction == resolve_direction(leg.floor, target as int),
                    self@.floor == target || resolve_direction(self@.floor, target as int)
                        == leg.direction,
                    self@.cabin_buttons == leg.cabin_buttons,
                    self@.call_buttons == leg.call_buttons,
                    distance(leg.floor, self@.floor) + distance(self@.floor, target as int)
                        == distance(leg.floor, target as int),
                    self@.door_open == (leg.door_open && self@.floor == leg.floor),
                    self@.floor == leg.floor ==> request_queue@ == waiting,
                    self@.floor != target ==> request_queue@ == waiting,
                    self@.floor == target && leg.floor != target ==> request_queue@ == remaining(
                        waiting,
                        target as int,
                        heading,
                    ),
                    leg.journal + leg_events(leg.floor, target as int) == self@.journal
                        + leg_events(self@.floor, target as int),
                decreases distance(self@.floor, target as int),
            {
                let ghost before = self@;
                self.open_door(false);
                match self.next_floor() {
                    Ok(()) => {},
                    Err(e) => {
                        return Err(e);
                    },
                }
                if self.current_floor == target {
                    discharge(request_queue, self.current_floor, heading);
                    self.journal.push(TripEvent::Reached(self.current_floor));
                    self.board_cabin();
                } else {
                    self.journal.push(TripEvent::Passed(self.current_floor));
                }
                proof {
                    let event = if self@.floor == target {
                        TripEvent::Reached(self.current_floor)
                    } else {
                        TripEvent::Passed(self.current_floor)
                    };
                    assert(leg_events(before.floor, target as int) == seq![event] + leg_events(
                        self@.floor,
                        target as int,
                    ));
                    assert(self@.journal == before.journal.push(event));
                    assert(before.journal + (seq![event] + leg_events(self@.floor, target as int))
                        =~= before.journal.push(event) + leg_events(self@.floor, target as int));
                }
            }
            proof {
                let rest = plan.skip(i as int);
                assert(rest.drop_first() =~= plan.skip(i + 1));
                assert(rest[0] == target);
                assert(leg_events(target as int, target as int) =~= Seq::<TripEvent>::empty());
                assert(self@.journal =~= leg.journal + leg_events(leg.floor, target as int));
                assert(leg.journal + (leg_events(leg.floor, target as int) + route_events(
                    target as int,
                    plan.skip(i + 1),
                )) =~= (leg.journal + leg_events(leg.floor, target as int)) + route_events(
                    target as int,
                    plan.skip(i + 1),
                ));
            }
            i = i + 1;
        }
        self.direction = ElevatorDirection::Rest;
        self.state = ElevatorState::Idle;
        proof {
            assert(plan.skip(plan.len() as int) =~= Seq::<i16>::empty());
            assert(self@.journal =~= start.journal + route_events(start.floor, plan));
            assert(self@ == route_car(start, plan));
        }
        Ok(())
    }

    /// Serves the pending requests until none is left, one sweep after the
    /// other. A sweep takes the direction of the first pending request when
    /// the car has none, and visits the floors that the requests for that
    /// direction name, in the order of travel; the other requests wait for a
    /// later sweep.
    ///
    /// The car sweeps for as long as a request is pending, so the queue has
    /// to be one that some number of sweeps empties. The only queues that
    /// are not are those on which the resting car comes to stand still: see
    /// `stands_still`, and `run_checked` for a run that gives up there.
    pub fn run(&mut self, request_queue: Vec<ElevatorRequest>) -> (res: Result<bool, ElevatorError>)
        requires
            exists|sweeps: nat| drains_within(old(self)@, request_queue@, sweeps),
        ensures
            res == Ok::<bool, ElevatorError>(true),
            forall|sweeps: nat|
                drains_within(old(self)@, request_queue@, sweeps) ==> final(self)@ == car_after(
                    old(self)@,
                    request_queue@,
                    sweeps,
                ),
    {
        let ghost start = self@;
        let ghost pending = request_queue@;
        let ghost budget = choose|sweeps: nat| drains_within(start, pending, sweeps);
        let ghost mut left: nat = budget;
        let mut queue = request_queue;
        while !queue.is_empty()
            invariant
                drains_within(self@, queue@, left),
                car_after(start, pending, budget) == car_after(self@, queue@, left),
            decreases left,
        {
            let ghost car = self@;
            if self.direction == ElevatorDirection::Rest {
                self.direction = queue[0].direction;
            }
            let plan = floor_sequence(&queue, self.direction);
            proof {
                assert(self@.direction == sweep_direction(car, queue@));
                assert(route_car(self@, plan@) == sweep_car(car, queue@));
                left = (left - 1) as nat;
            }
            match self.traverse_route(plan, &mut queue) {
                Ok(()) => {},
                Err(e) => {
                    return Err(e);
                },
            }
        }
        proof {
            assert forall|sweeps: nat| drains_within(start, pending, sweeps) implies self@
                == car_after(start, pending, sweeps) by {
                lemma_car_after_settles(start, pending, sweeps, budget);
            }
        }
        Ok(true)
    }

    /// Serves the pending requests as `run` does, and gives up where `run`
    /// would sweep on forever: when the resting car comes to a sweep whose
    /// requests name no floor but its own, it cannot move and never will.
    /// The result is then `None`, and the car stays where the sweeps before
    /// have brought it. That is the only way for a run not to end.
    pub fn run_checked(&mut self, request_queue: Vec<ElevatorRequest>) -> (res: Option<
        Result<bool, ElevatorError>,
    >)
        ensures
            res.is_some() <==> exists|sweeps: nat|
                drains_within(old(self)@, request_queue@, sweeps),
            res.is_some() ==> res == Some(Ok::<bool, ElevatorError>(true)),
            forall|sweeps: nat|
                drains_within(old(self)@, request_queue@, sweeps) ==> final(self)@ == car_after(
                    old(self)@,
                    request_queue@,
                    sweeps,
                ),
            res.is_none() ==> exists|done: nat|
                final(self)@ == car_after(old(self)@, request_queue@, done) && stands_still(
                    final(self)@,
                    #[trigger] queue_after(old(self)@, request_queue@, done),
                ),
    {
        let ghost start = self@;
        let ghost pending = request_queue@;
        let ghost mut done: nat = 0;
        let mut queue = request_queue;
        if !queue.is_empty() && self.direction != ElevatorDirection::Rest {
            let plan = floor_sequence(&queue, self.direction);
            proof {
                lemma_one_more_sweep(start, pending, 0);
                done = 1;
            }
            match self.traverse_route(plan, &mut queue) {
                Ok(()) => {},
                Err(e) => {
                    return Some(Err(e));
                },
            }
        }
        while !queue.is_empty()
            invariant
                start == old(self)@,
                pending == request_queue@,
                self@ == car_after(start, pending, done),
                queue@ == queue_after(start, pending, done),
                queue@.len() > 0 ==> self@.direction == ElevatorDirection::Rest,
            decreases
                    2 * queue@.len() + (if sweep_queue(self@, queue@).len() == queue@.len() {
                        1nat
                    } else {
                        0nat
                    }),
        {
            let ghost car = self@;
            let ghost waiting = queue@;
            let heading = queue[0].direction;
            let plan = floor_sequence(&queue, heading);
            proof {
                assert(names_floor(waiting[0], heading, waiting[0].desired_floor));
                assert(plan@.contains(waiting[0].desired_floor));
            }
            if plan.len() == 1 && plan[0] == self.current_floor {
                proof {
                    assert(stands_still(car, waiting));
                    assert forall|sweeps: nat| !drains_within(start, pending, sweeps) by {
                        if drains_within(start, pending, sweeps) {
                            lemma_drains_later(start, pending, sweeps, done);
                            lemma_standing_still_never_drains(
                                car,
                                waiting,
                                (sweeps - done) as nat,
                            );
                        }
                    }
                }
                return None;
            }
            self.direction = heading;
            proof {
                if stays_put(car.floor, plan@) {
                    assert(plan@[0] == car.floor);
                    if plan@.len() > 1 {
                        assert(plan@[1] == car.floor);
                    }
                }
                assert(route_car(self@, plan@) == sweep_car(car, waiting));
                lemma_one_more_sweep(start, pending, done);
                lemma_route_queue_shrinks(car.floor, waiting, plan@, heading);
                if sweep_queue(car, waiting).len() == waiting.len() {
                    lemma_second_sweep_completes(car, waiting);
                }
                done = done + 1;
            }
            match self.traverse_route(plan, &mut queue) {
                Ok(()) => {},
                Err(e) => {
                    return Some(Err(e));
                },
            }
        }
        proof {
            lemma_drained_is_empty_after(start, pending, done);
            assert forall|sweeps: nat| drains_within(start, pending, sweeps) implies self@
                == car_after(start, pending, sweeps) by {
                lemma_car_after_settles(start, pending, sweeps, done);
            }
        }
        Some(Ok(true))
    }
}

impl Default for Elevator {
    /// An idle car at floor `0` of a building with two floors.
    fn default() -> (car: Self)
        ensures
            car@ == (CarView {
                floor: 0,
                direction: ElevatorDirection::Rest,
                state: ElevatorState::Idle,
                door_open: false,
                journal: Seq::<TripEvent>::empty(),
                cabin_buttons: Seq::<FloorButton>::empty(),
                call_buttons: call_buttons(2),
            }),
    {
        Elevator {
            current_floor: 0,
            state: ElevatorState::Idle,
            direction: ElevatorDirection::Rest,
            is_door_open: false,
            journal: Vec::new(),
            cabin_ctrl: CabinController::new(2),
            boarding_ctrls: BoardingController::new(2),
        }
    }
}

} // verus!
