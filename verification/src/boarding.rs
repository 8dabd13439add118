use vstd::prelude::*;

use crate::direction::ElevatorDirection;

verus! {

/// The call button of one floor: the floor it is on and the way its
/// passenger wants to travel.
#[derive(Clone, Copy, Debug, PartialEq, Eq, Structural)]
pub struct BoardingController {
    pub boarding_floor: i16,
    pub desired_direction: ElevatorDirection,
}

/// The call buttons of a building with floors `1` to `num_floors`, lowest
/// floor first, each set to travel down. A building without floors has none.
pub open spec fn call_buttons(num_floors: int) -> Seq<BoardingController> {
    if num_floors < 1 {
        Seq::empty()
    } else {
        Seq::new(
            num_floors as nat,
            |i: int|
                BoardingController {
                    boarding_floor: (i + 1) as i16,
                    desired_direction: ElevatorDirection::Down,
                },
        )
    }
}

impl BoardingController {
    /// One call button for each of the floors `1` to `num_floors`, and none
    /// where `num_floors` is below `1`.
    pub fn new(num_floors: i16) -> (buttons: Vec<BoardingController>)
        ensures
            buttons@ == call_buttons(num_floors as int),
    {
        if num_floors < 1 {
            return Vec::new();
        }
        let mut buttons: Vec<BoardingController> = Vec::with_capacity((num_floors - 1) as usize);
        let mut floor: i16 = 0;
        assert(buttons@ =~= call_buttons(0));
        while floor < num_floors
            invariant
                0 <= floor <= num_floors,
                buttons@ == call_buttons(floor as int),
            decreases num_floors - floor,
        {
            floor = floor + 1;
            buttons.push(
                BoardingController {
                    boarding_floor: floor,
                    desired_direction: ElevatorDirection::Down,
                },
            );
            assert(buttons@ =~= call_buttons(floor as int));
        }
        buttons
    }
}

} // verus!
