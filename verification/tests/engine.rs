use elevator::car::{ElevatorError, ElevatorState, TripEvent};
use elevator::direction::ElevatorDirection;
use elevator::elevator::Elevator;
use elevator::plan::floor_sequence;
use elevator::request::ElevatorRequest;

fn down(boarding: i16, desired: i16) -> ElevatorRequest {
    ElevatorRequest::new(boarding, desired, ElevatorDirection::Down)
}

fn up(boarding: i16, desired: i16) -> ElevatorRequest {
    ElevatorRequest::new(boarding, desired, ElevatorDirection::Up)
}

#[test]
fn direction_points_from_current_to_target() {
    assert_eq!(Elevator::get_direction(3, 5), ElevatorDirection::Up);
    assert_eq!(Elevator::get_direction(5, 3), ElevatorDirection::Down);
    assert_eq!(Elevator::get_direction(4, 4), ElevatorDirection::Rest);
    assert_eq!(Elevator::get_direction(i16::MIN, i16::MAX), ElevatorDirection::Up);
    assert_eq!(Elevator::get_direction(i16::MAX, i16::MIN), ElevatorDirection::Down);
    assert_eq!(Elevator::get_direction(-1, 0), ElevatorDirection::Up);
}

#[test]
fn set_direction_points_the_car_at_the_floor() {
    let mut car = Elevator::default().set_current_floor(4);
    car.set_direction(9);
    assert_eq!(car.direction, ElevatorDirection::Up);
    car.set_direction(1);
    assert_eq!(car.direction, ElevatorDirection::Down);
    car.set_direction(4);
    assert_eq!(car.direction, ElevatorDirection::Rest);
    assert_eq!(car.current_floor, 4);
}

#[test]
fn a_step_moves_one_floor_in_the_direction() {
    let mut car = Elevator::default().set_current_floor(4);
    car.direction = ElevatorDirection::Up;
    assert_eq!(car.next_floor(), Ok(()));
    assert_eq!(car.current_floor, 5);
    car.direction = ElevatorDirection::Down;
    assert_eq!(car.next_floor(), Ok(()));
    assert_eq!(car.next_floor(), Ok(()));
    assert_eq!(car.current_floor, 3);
    car.direction = ElevatorDirection::Rest;
    assert_eq!(car.next_floor(), Ok(()));
    assert_eq!(car.current_floor, 3);
}

#[test]
fn a_step_with_the_door_open_fails_and_stays() {
    let mut car = Elevator::default().set_current_floor(4);
    car.direction = ElevatorDirection::Up;
    car.state = ElevatorState::Boarding;
    car.open_door(true);
    assert_eq!(car.next_floor(), Err(ElevatorError::MoveRequestWithDoorOpen));
    assert_eq!(car.current_floor, 4);
    assert!(car.is_door_open());
    assert_eq!(car.direction, ElevatorDirection::Up);
    assert!(car.journal().is_empty());
    car.open_door(false);
    assert_eq!(car.next_floor(), Ok(()));
    assert_eq!(car.current_floor, 5);
}

#[test]
fn boarding_leaves_the_door_closed() {
    let mut car = Elevator::default();
    car.board_cabin();
    assert!(!car.is_door_open());
    assert!(car.state == ElevatorState::Boarding);

    car.open_door(true);
    assert!(car.is_door_open());
    car.board_cabin();
    assert!(!car.is_door_open());
}

#[test]
fn closing_a_closed_door_changes_nothing() {
    let mut car = Elevator::default().set_current_floor(2);
    assert!(!car.is_door_open());
    car.open_door(false);
    assert!(!car.is_door_open());
    assert_eq!(car.current_floor, 2);
    assert!(car.state == ElevatorState::Idle);
    assert_eq!(car.direction, ElevatorDirection::Rest);
}

#[test]
fn the_door_opens_only_while_boarding() {
    let mut car = Elevator::default();
    car.open_door(true);
    assert!(!car.is_door_open());
    car.state = ElevatorState::Enroute;
    car.open_door(true);
    assert!(!car.is_door_open());
    assert!(car.state == ElevatorState::Enroute);
    car.state = ElevatorState::Boarding;
    car.open_door(true);
    assert!(car.is_door_open());
    car.state = ElevatorState::Idle;
    car.open_door(true);
    assert!(car.is_door_open());
    car.open_door(false);
    assert!(!car.is_door_open());
}

#[test]
fn floor_sequence_sorts_the_floors() {
    let queue = vec![up(1, 5), up(2, 3)];
    assert_eq!(floor_sequence(&queue, ElevatorDirection::Up), vec![1, 2, 3, 5]);
}

#[test]
fn floor_sequence_names_each_floor_once() {
    let queue = vec![up(4, 8), up(6, 8), up(4, 6)];
    assert_eq!(floor_sequence(&queue, ElevatorDirection::Up), vec![4, 6, 8]);
}

#[test]
fn floor_sequence_goes_down_highest_first() {
    let queue = vec![down(6, 1), down(4, 1)];
    assert_eq!(floor_sequence(&queue, ElevatorDirection::Down), vec![6, 4, 1]);
}

#[test]
fn floor_sequence_leaves_out_the_other_direction() {
    let queue = vec![up(2, 6), down(4, 1), ElevatorRequest::new(7, 9, ElevatorDirection::Rest)];
    assert_eq!(floor_sequence(&queue, ElevatorDirection::Up), vec![2, 6]);
    assert_eq!(floor_sequence(&queue, ElevatorDirection::Down), vec![4, 1]);
    assert_eq!(floor_sequence(&queue, ElevatorDirection::Rest), vec![7, 9]);
}

#[test]
fn floor_sequence_of_nothing_is_empty() {
    let queue: Vec<ElevatorRequest> = Vec::new();
    assert_eq!(floor_sequence(&queue, ElevatorDirection::Up), Vec::<i16>::new());
    let queue = vec![up(1, 2)];
    assert_eq!(floor_sequence(&queue, ElevatorDirection::Down), Vec::<i16>::new());
}

#[test]
fn floor_sequence_takes_negative_floors() {
    let queue = vec![down(3, -2), down(-1, -2), down(0, -1)];
    assert_eq!(floor_sequence(&queue, ElevatorDirection::Down), vec![3, 0, -1, -2]);
}

#[test]
fn the_car_goes_down_floor_by_floor() {
    let mut car = Elevator::default().set_current_floor(7).with_floors(7);
    let res = car.run(vec![down(6, 1), down(4, 1)]);
    assert_eq!(res, Ok(true));
    assert_eq!(car.current_floor, 1);
    assert_eq!(
        car.journal(),
        &vec![
            TripEvent::Reached(6),
            TripEvent::Passed(5),
            TripEvent::Reached(4),
            TripEvent::Passed(3),
            TripEvent::Passed(2),
            TripEvent::Reached(1),
        ]
    );
    assert!(!car.is_door_open());
    assert!(car.state == ElevatorState::Idle);
    assert_eq!(car.direction, ElevatorDirection::Rest);
}

#[test]
fn the_car_fetches_a_passenger_below_before_going_up() {
    let mut car = Elevator::default().set_current_floor(3);
    let res = car.run(vec![up(1, 2)]);
    assert_eq!(res, Ok(true));
    assert_eq!(car.current_floor, 2);
    assert_eq!(
        car.journal(),
        &vec![TripEvent::Passed(2), TripEvent::Reached(1), TripEvent::Reached(2)]
    );
}

#[test]
fn the_other_direction_waits_for_the_next_sweep() {
    let mut car = Elevator::default().set_current_floor(3).with_floors(8);
    let mut queue = vec![up(2, 6), down(4, 1)];

    car.direction = ElevatorDirection::Up;
    let plan = floor_sequence(&queue, car.direction);
    assert_eq!(plan, vec![2, 6]);
    assert_eq!(car.traverse_route(plan, &mut queue), Ok(()));
    assert_eq!(queue, vec![down(4, 1)]);
    assert_eq!(car.current_floor, 6);
    assert_eq!(car.direction, ElevatorDirection::Rest);
    assert!(car.state == ElevatorState::Idle);

    car.direction = ElevatorDirection::Down;
    let plan = floor_sequence(&queue, car.direction);
    assert_eq!(plan, vec![4, 1]);
    assert_eq!(car.traverse_route(plan, &mut queue), Ok(()));
    assert!(queue.is_empty());
    assert_eq!(car.current_floor, 1);
}

#[test]
fn a_request_of_the_other_direction_waits_even_at_its_floor() {
    let mut car = Elevator::default().set_current_floor(3).with_floors(8);
    let mut queue = vec![up(2, 6), down(4, 2)];
    car.direction = ElevatorDirection::Up;
    let plan = floor_sequence(&queue, ElevatorDirection::Up);
    assert_eq!(plan, vec![2, 6]);
    assert_eq!(car.traverse_route(plan, &mut queue), Ok(()));
    assert_eq!(queue, vec![down(4, 2)]);
    assert_eq!(car.current_floor, 6);

    let mut car = Elevator::default().set_current_floor(3).with_floors(8);
    assert_eq!(car.run(vec![up(2, 6), down(4, 2)]), Ok(true));
    assert_eq!(car.current_floor, 2);
    let stops: Vec<i16> = car
        .journal()
        .iter()
        .filter_map(|e| match e {
            TripEvent::Reached(floor) => Some(*floor),
            TripEvent::Passed(_) => None,
        })
        .collect();
    assert_eq!(stops, vec![2, 6, 4, 2]);
}

#[test]
fn a_request_against_its_own_direction_leaves_at_its_floor() {
    let mut car = Elevator::default().set_current_floor(3);
    assert_eq!(car.run(vec![up(2, 1)]), Ok(true));
    assert_eq!(car.current_floor, 2);
    assert_eq!(
        car.journal(),
        &vec![TripEvent::Passed(2), TripEvent::Reached(1), TripEvent::Reached(2)]
    );
    assert!(!car.is_door_open());
    assert!(car.state == ElevatorState::Idle);
    assert_eq!(car.direction, ElevatorDirection::Rest);
}

#[test]
fn a_run_one_way_ends_at_the_outermost_floor() {
    for start in [-2i16, 1, 2, 4, 7, 9, 12] {
        let mut car = Elevator::default().set_current_floor(start);
        assert_eq!(car.run(vec![up(4, 7), up(2, 9), up(7, 4)]), Ok(true));
        assert_eq!(car.current_floor, 9);
        assert!(!car.is_door_open());
        assert!(car.state == ElevatorState::Idle);
        assert_eq!(car.direction, ElevatorDirection::Rest);

        let mut car = Elevator::default().set_current_floor(start);
        assert_eq!(car.run(vec![down(7, 4), down(9, 1), down(4, 7)]), Ok(true));
        assert_eq!(car.current_floor, 1);
    }
}

#[test]
fn a_request_missed_at_the_start_takes_a_second_sweep() {
    let mut car = Elevator::default().set_current_floor(1);
    assert_eq!(car.run(vec![up(5, 1), up(1, 9)]), Ok(true));
    assert_eq!(car.current_floor, 5);
    let stops: Vec<i16> = car
        .journal()
        .iter()
        .filter_map(|e| match e {
            TripEvent::Reached(floor) => Some(*floor),
            TripEvent::Passed(_) => None,
        })
        .collect();
    assert_eq!(stops, vec![5, 9, 1, 5]);
}

#[test]
fn a_request_with_one_floor_leaves_when_the_car_comes_there() {
    let mut car = Elevator::default().set_current_floor(3);
    assert_eq!(car.run(vec![up(5, 5), up(5, 5)]), Ok(true));
    assert_eq!(car.current_floor, 5);
    assert_eq!(car.journal(), &vec![TripEvent::Passed(4), TripEvent::Reached(5)]);

    let mut car = Elevator::default().set_current_floor(7);
    assert_eq!(car.run(vec![down(5, 5), up(6, 6)]), Ok(true));
    assert_eq!(car.current_floor, 6);
}

#[test]
fn requests_without_a_direction_are_served_lowest_floor_first() {
    let rest = |boarding: i16, desired: i16| {
        ElevatorRequest::new(boarding, desired, ElevatorDirection::Rest)
    };
    let mut car = Elevator::default().set_current_floor(5);
    assert_eq!(car.run(vec![rest(7, 2), up(1, 3)]), Ok(true));
    assert_eq!(car.current_floor, 3);
    let stops: Vec<i16> = car
        .journal()
        .iter()
        .filter_map(|e| match e {
            TripEvent::Reached(floor) => Some(*floor),
            TripEvent::Passed(_) => None,
        })
        .collect();
    assert_eq!(stops, vec![2, 7, 1, 3]);
}

#[test]
fn both_directions_are_served_in_one_run() {
    let mut car = Elevator::default().set_current_floor(1).with_floors(10);
    let res = car.run(vec![up(2, 5), down(4, 1), down(10, 1)]);
    assert_eq!(res, Ok(true));
    assert_eq!(car.current_floor, 1);
    let stops: Vec<i16> = car
        .journal()
        .iter()
        .filter_map(|e| match e {
            TripEvent::Reached(floor) => Some(*floor),
            TripEvent::Passed(_) => None,
        })
        .collect();
    assert_eq!(stops, vec![2, 5, 10, 4, 1]);
    assert_eq!(car.journal().len(), 4 + 5 + 9);
}

#[test]
fn a_request_is_complete_only_at_its_floor_and_on_its_sweep() {
    let mut car = Elevator::default().set_current_floor(5);
    car.direction = ElevatorDirection::Up;
    let mut queue = vec![up(1, 3), down(9, 3), up(3, 4), down(3, 1)];
    assert_eq!(car.traverse_route(vec![3], &mut queue), Ok(()));
    assert_eq!(queue, vec![down(9, 3), up(3, 4), down(3, 1)]);

    let mut car = Elevator::default().set_current_floor(2);
    car.direction = ElevatorDirection::Down;
    let mut queue = vec![up(1, 3), down(9, 3), up(3, 4), down(3, 1)];
    assert_eq!(car.traverse_route(vec![3], &mut queue), Ok(()));
    assert_eq!(queue, vec![up(1, 3), up(3, 4), down(3, 1)]);

    let mut car = Elevator::default().set_current_floor(2);
    let mut queue = vec![up(1, 3), down(9, 3)];
    assert_eq!(car.traverse_route(vec![3], &mut queue), Ok(()));
    assert_eq!(queue, vec![up(1, 3), down(9, 3)]);
}

#[test]
fn a_car_that_is_there_already_does_not_stop_again() {
    let mut car = Elevator::default().set_current_floor(3);
    let mut queue = vec![up(3, 3), down(3, 3)];
    assert_eq!(car.traverse_route(vec![3], &mut queue), Ok(()));
    assert_eq!(queue, vec![up(3, 3), down(3, 3)]);
    assert_eq!(car.current_floor, 3);
    assert!(car.journal().is_empty());
    assert!(car.state == ElevatorState::Idle);
    assert_eq!(car.direction, ElevatorDirection::Rest);
}

#[test]
fn a_route_need_not_be_in_order() {
    let mut car = Elevator::default().set_current_floor(3);
    car.direction = ElevatorDirection::Down;
    let mut queue = vec![down(5, 2), up(2, 4)];
    assert_eq!(car.traverse_route(vec![5, 2, 4], &mut queue), Ok(()));
    assert_eq!(queue, vec![up(2, 4)]);
    assert_eq!(car.current_floor, 4);
    assert_eq!(
        car.journal(),
        &vec![
            TripEvent::Passed(4),
            TripEvent::Reached(5),
            TripEvent::Passed(4),
            TripEvent::Passed(3),
            TripEvent::Reached(2),
            TripEvent::Passed(3),
            TripEvent::Reached(4),
        ]
    );
}

#[test]
fn an_empty_route_leaves_the_car_idle_where_it_is() {
    let mut car = Elevator::default().set_current_floor(3);
    car.direction = ElevatorDirection::Up;
    let mut queue = vec![down(4, 1)];
    assert_eq!(car.traverse_route(Vec::new(), &mut queue), Ok(()));
    assert_eq!(queue, vec![down(4, 1)]);
    assert_eq!(car.current_floor, 3);
    assert_eq!(car.direction, ElevatorDirection::Rest);
    assert!(car.state == ElevatorState::Idle);
}

#[test]
fn an_open_door_is_closed_before_the_car_moves() {
    let mut car = Elevator::default().set_current_floor(3);
    car.state = ElevatorState::Boarding;
    car.open_door(true);
    car.direction = ElevatorDirection::Up;
    let mut queue = vec![up(3, 4)];
    assert_eq!(car.traverse_route(vec![3, 4], &mut queue), Ok(()));
    assert!(!car.is_door_open());
    assert_eq!(car.current_floor, 4);
    assert!(queue.is_empty());
}

#[test]
fn an_open_door_stays_open_while_the_car_stays() {
    let mut car = Elevator::default().set_current_floor(3);
    car.state = ElevatorState::Boarding;
    car.open_door(true);
    let mut queue = Vec::new();
    assert_eq!(car.traverse_route(vec![3], &mut queue), Ok(()));
    assert!(car.is_door_open());
    assert_eq!(car.next_floor(), Err(ElevatorError::MoveRequestWithDoorOpen));
}

#[test]
fn a_run_without_requests_changes_nothing() {
    let mut car = Elevator::default().set_current_floor(3);
    car.direction = ElevatorDirection::Up;
    assert_eq!(car.run(Vec::new()), Ok(true));
    assert_eq!(car.current_floor, 3);
    assert_eq!(car.direction, ElevatorDirection::Up);
    assert!(car.journal().is_empty());
}

#[test]
fn a_car_with_a_direction_sweeps_that_way_first() {
    let mut car = Elevator::default().set_current_floor(5);
    car.direction = ElevatorDirection::Down;
    assert_eq!(car.run(vec![up(6, 8), down(4, 2)]), Ok(true));
    assert_eq!(car.current_floor, 8);
    let stops: Vec<i16> = car
        .journal()
        .iter()
        .filter_map(|e| match e {
            TripEvent::Reached(floor) => Some(*floor),
            TripEvent::Passed(_) => None,
        })
        .collect();
    assert_eq!(stops, vec![4, 2, 6, 8]);
}

#[test]
fn a_checked_run_serves_what_a_run_serves() {
    let mut car = Elevator::default().set_current_floor(3).with_floors(8);
    assert_eq!(car.run_checked(vec![up(2, 6), down(4, 1)]), Some(Ok(true)));
    assert_eq!(car.current_floor, 1);

    let mut car = Elevator::default().set_current_floor(3);
    assert_eq!(car.run_checked(vec![up(2, 6), up(4, 1)]), Some(Ok(true)));
    assert_eq!(car.current_floor, 6);

    let mut car = Elevator::default().set_current_floor(3);
    assert_eq!(car.run_checked(vec![down(2, 2)]), Some(Ok(true)));
    assert_eq!(car.current_floor, 2);

    let mut car = Elevator::default().set_current_floor(3);
    assert_eq!(
        car.run_checked(vec![ElevatorRequest::new(1, 2, ElevatorDirection::Rest)]),
        Some(Ok(true))
    );
    assert_eq!(car.current_floor, 2);

    let mut car = Elevator::default().set_current_floor(1);
    assert_eq!(car.run_checked(vec![up(5, 1), up(1, 9)]), Some(Ok(true)));
    assert_eq!(car.current_floor, 5);

    let mut car = Elevator::default().set_current_floor(3);
    assert_eq!(car.run_checked(Vec::new()), Some(Ok(true)));
    assert_eq!(car.current_floor, 3);
}

#[test]
fn a_checked_run_gives_up_where_the_car_stands_still() {
    let mut car = Elevator::default().set_current_floor(2);
    assert_eq!(car.run_checked(vec![down(2, 2)]), None);
    assert_eq!(car.current_floor, 2);
    assert!(car.journal().is_empty());

    let mut car = Elevator::default().set_current_floor(2);
    assert_eq!(car.run_checked(vec![up(2, 2), up(2, 2), down(1, 4)]), None);
    assert_eq!(car.current_floor, 2);
}

#[test]
fn a_checked_run_gives_up_after_the_sweeps_that_moved() {
    let mut car = Elevator::default().set_current_floor(3);
    assert_eq!(car.run_checked(vec![up(5, 5), down(5, 5)]), None);
    assert_eq!(car.current_floor, 5);
    assert_eq!(car.journal(), &vec![TripEvent::Passed(4), TripEvent::Reached(5)]);
    assert_eq!(car.direction, ElevatorDirection::Rest);
    assert!(car.state == ElevatorState::Idle);

    let mut car = Elevator::default().set_current_floor(5);
    car.direction = ElevatorDirection::Up;
    assert_eq!(car.run_checked(vec![down(5, 5)]), None);
    assert_eq!(car.current_floor, 5);
    assert_eq!(car.direction, ElevatorDirection::Rest);
}
