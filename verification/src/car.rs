use vstd::prelude::*;

use crate::boarding::BoardingController;
use crate::cabin::FloorButton;
use crate::direction::ElevatorDirection;

verus! {

/// What the car is doing.
#[derive(Clone, Copy, Debug, PartialEq, Eq, Structural)]
pub enum ElevatorState {
    Enroute,
    Boarding,
    Idle,
}

impl Default for ElevatorState {
    fn default() -> (s: Self)
        ensures
            s == ElevatorState::Idle,
    {
        ElevatorState::Idle
    }
}

/// Why the car refused to act.
#[derive(Clone, Copy, Debug, PartialEq, Eq, Structural)]
pub enum ElevatorError {
    /// The car was asked to move while its door was open.
    MoveRequestWithDoorOpen,
}

impl ElevatorError {
    /// A description of the error for people.
    pub fn description(&self) -> (text: &'static str)
        ensures
            text@ == "door open while attempting to move elevator"@,
    {
        match self {
            ElevatorError::MoveRequestWithDoorOpen => "door open while attempting to move elevator",
        }
    }
}

/// One entry of the car's travel journal.
#[derive(Clone, Copy, Debug, PartialEq, Eq, Structural)]
pub enum TripEvent {
    /// The car went through this floor without stopping.
    Passed(i16),
    /// The car stopped at this floor and let passengers on and off.
    Reached(i16),
}

/// The car as the contracts see it.
pub struct CarView {
    pub floor: int,
    pub direction: ElevatorDirection,
    pub state: ElevatorState,
    pub door_open: bool,
    pub journal: Seq<TripEvent>,
    pub cabin_buttons: Seq<FloorButton>,
    pub call_buttons: Seq<BoardingController>,
}

} // verus!
