use std::cmp::Ordering;
use vstd::prelude::*;
use vstd::std_specs::cmp::PartialOrdSpecImpl;

use crate::direction::{resolve_direction, ElevatorDirection};

verus! {

/// A passenger's call: where they board, where they want to go, and which
/// way they asked to travel.
#[derive(PartialEq, Eq, Debug, Copy, Clone, Structural)]
pub struct ElevatorRequest {
    pub boarding_floor: i16,
    pub desired_floor: i16,
    pub direction: ElevatorDirection,
    pub is_complete: bool,
}

impl ElevatorRequest {
    /// A pending request from `boarding_floor` to `desired_floor`.
    pub fn new(boarding_floor: i16, desired_floor: i16, direction: ElevatorDirection) -> (r: Self)
        ensures
            r == (ElevatorRequest { boarding_floor, desired_floor, direction, is_complete: false }),
    {
        ElevatorRequest { boarding_floor, desired_floor, direction, is_complete: false }
    }

    /// The request asks to travel the way that leads from its boarding floor
    /// to its desired floor, and the two floors differ.
    pub open spec fn serviceable(&self) -> bool {
        self.direction != ElevatorDirection::Rest && self.direction == resolve_direction(
            self.boarding_floor as int,
            self.desired_floor as int,
        )
    }

    /// Whether the request asks to travel the way that leads from its
    /// boarding floor to its desired floor.
    pub fn is_serviceable(&self) -> (yes: bool)
        ensures
            yes == self.serviceable(),
    {
        match self.direction {
            ElevatorDirection::Up => self.boarding_floor < self.desired_floor,
            ElevatorDirection::Down => self.boarding_floor > self.desired_floor,
            ElevatorDirection::Rest => false,
        }
    }

    /// How this request's destination compares with that of `other`.
    pub open spec fn destination_order(&self, other: &Self) -> Ordering {
        if self.desired_floor < other.desired_floor {
            Ordering::Less
        } else if self.desired_floor > other.desired_floor {
            Ordering::Greater
        } else {
            Ordering::Equal
        }
    }
}

/// Requests are ordered by destination floor, ascending, and by nothing else.
impl PartialOrd for ElevatorRequest {
    fn partial_cmp(&self, other: &Self) -> (r: Option<Ordering>) {
        if self.desired_floor < other.desired_floor {
            Some(Ordering::Less)
        } else if self.desired_floor > other.desired_floor {
            Some(Ordering::Greater)
        } else {
            Some(Ordering::Equal)
        }
    }
}

impl PartialOrdSpecImpl for ElevatorRequest {
    open spec fn obeys_partial_cmp_spec() -> bool {
        true
    }

    open spec fn partial_cmp_spec(&self, other: &Self) -> Option<Ordering> {
        Some(self.destination_order(other))
    }
}

} // verus!
