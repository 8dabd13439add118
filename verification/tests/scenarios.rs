use elevator::car::{ElevatorError, ElevatorState};
use elevator::direction::ElevatorDirection;
use elevator::elevator::Elevator;
use elevator::request::ElevatorRequest;

#[test]
fn next_floor_when_door_is_open_error() {
    let mut sup = Elevator::default();
    sup.state = ElevatorState::Boarding;
    sup.open_door(true);
    assert!(sup.is_door_open());

    let actual = sup.next_floor();

    assert_eq!(actual, Err(ElevatorError::MoveRequestWithDoorOpen));
}

#[test]
fn run_elevator_travels_down() {
    let mut sup = Elevator::default().set_current_floor(3).with_floors(3);

    let _ = sup.run(vec![ElevatorRequest::new(2, 1, ElevatorDirection::Down)]);

    assert_eq!(sup.current_floor, 1)
}

#[test]
fn run_elevator_travels_up() {
    let mut sup = Elevator::default().set_current_floor(3);

    let _ = sup.run(vec![ElevatorRequest::new(1, 2, ElevatorDirection::Up)]);

    assert_eq!(sup.current_floor, 2)
}

// Passenger summons lift on the ground floor. Once in, chooses to go to level 5.
#[test]
fn scenario_1() {
    let boarding_floor = 1;
    let desired_floor = 5;

    let mut sup = Elevator::default().set_current_floor(3).with_floors(5);

    let _ = sup.run(vec![ElevatorRequest::new(
        boarding_floor,
        desired_floor,
        ElevatorDirection::Up,
    )]);

    assert_eq!(sup.current_floor, desired_floor)
}

// Passenger summons lift on level 6 to go down.
// Passenger on level 4 summons the lift to go down. They both choose L1.
#[test]
fn scenario_2() {
    let current_floor = 7;
    let p1_boarding_floor = 6;
    let p2_boarding_floor = 4;
    let desired_floor = 1;

    let mut sup = Elevator::default()
        .set_current_floor(current_floor)
        .with_floors(7);

    let _ = sup.run(vec![
        ElevatorRequest::new(p1_boarding_floor, desired_floor, ElevatorDirection::Down),
        ElevatorRequest::new(p2_boarding_floor, desired_floor, ElevatorDirection::Down),
    ]);

    assert_eq!(sup.current_floor, desired_floor)
}

// Passenger summons lift on level 4 to go up.
// Passenger on level 6 summons the lift to go up. They both choose L8.
#[test]
fn scenario_2_opposite() {
    let current_floor = 3;
    let p1_boarding_floor = 4;
    let p2_boarding_floor = 6;
    let desired_floor = 8;

    let mut sup = Elevator::default()
        .set_current_floor(current_floor)
        .with_floors(8);

    let _ = sup.run(vec![
        ElevatorRequest::new(p1_boarding_floor, desired_floor, ElevatorDirection::Up),
        ElevatorRequest::new(p2_boarding_floor, desired_floor, ElevatorDirection::Up),
    ]);

    assert_eq!(sup.current_floor, desired_floor)
}

// Passenger 1 summons lift to go up from L2
// Passenger 1 chooses to go to L6
// Passenger 2 summons lift to go down from L4
// Passenger 2 chooses to go to Ground Floor
#[test]
fn scenario_3() {
    let current_floor = 3;
    let p1_boarding_floor = 2;
    let p1_desired_floor_1 = 6;

    let p2_boarding_floor = 4;
    let p2_desired_floor = 1;

    let mut sup = Elevator::default()
        .set_current_floor(current_floor)
        .with_floors(8);

    let _ = sup.run(vec![
        ElevatorRequest::new(p1_boarding_floor, p1_desired_floor_1, ElevatorDirection::Up),
        ElevatorRequest::new(p2_boarding_floor, p2_desired_floor, ElevatorDirection::Down),
    ]);

    assert_eq!(sup.current_floor, p2_desired_floor)
}

// Passenger 1 summons lift to go up from Ground. They choose L5.
// Passenger 2 summons lift to go down from L4.
// Passenger 3 summons lift to go down from L10.
// Passengers 2 and 3 choose to travel to Ground.
#[test]
fn scenario_4() {
    let current_floor = 1;
    let p1_boarding_floor = 2;
    let p1_desired_floor_1 = 5;

    let p2_boarding_floor = 4;
    let p2_desired_floor = 1;

    let p3_boarding_floor = 10;
    let p3_desired_floor = 1;

    let mut sup = Elevator::default()
        .set_current_floor(current_floor)
        .with_floors(10);

    let _ = sup.run(vec![
        ElevatorRequest::new(p1_boarding_floor, p1_desired_floor_1, ElevatorDirection::Up),
        ElevatorRequest::new(p2_boarding_floor, p2_desired_floor, ElevatorDirection::Down),
        ElevatorRequest::new(p3_boarding_floor, p3_desired_floor, ElevatorDirection::Down),
    ]);

    assert_eq!(sup.current_floor, p2_desired_floor)
}

#[test]
fn scenario_5() {}
