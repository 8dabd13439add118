use vstd::prelude::*;

verus! {

/// The way the car travels. `Rest` is the mode of an idle car.
#[derive(Eq, PartialEq, Copy, Clone, Debug, Structural)]
pub enum ElevatorDirection {
    Up,
    Down,
    Rest,
}

impl ElevatorDirection {
    /// The signed floor increment of one step in this direction.
    pub open spec fn step(self) -> int {
        match self {
            ElevatorDirection::Up => 1,
            ElevatorDirection::Down => -1,
            ElevatorDirection::Rest => 0,
        }
    }

    /// The signed floor increment of one step in this direction.
    pub fn as_step(self) -> (s: i16)
        ensures
            s == self.step(),
    {
        match self {
            ElevatorDirection::Up => 1,
            ElevatorDirection::Down => -1,
            ElevatorDirection::Rest => 0,
        }
    }
}

impl Default for ElevatorDirection {
    fn default() -> (d: Self)
        ensures
            d == ElevatorDirection::Rest,
    {
        ElevatorDirection::Rest
    }
}

/// The direction that leads from floor `current` towards floor `target`.
pub open spec fn resolve_direction(current: int, target: int) -> ElevatorDirection {
    if current < target {
        ElevatorDirection::Up
    } else if current > target {
        ElevatorDirection::Down
    } else {
        ElevatorDirection::Rest
    }
}

} // verus!
