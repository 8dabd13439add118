use vstd::prelude::*;

verus! {

/// A destination button inside the cabin.
pub struct FloorButton {
    floor: i16,
    is_pressed: bool,
}

/// The panel of destination buttons inside the cabin.
pub struct CabinController {
    pub buttons: Vec<FloorButton>,
}

impl CabinController {
    /// A panel with room for `available_floors` buttons and none fitted yet.
    pub fn new(available_floors: i16) -> (panel: Self)
        requires
            available_floors >= 0,
        ensures
            panel.buttons@ == Seq::<FloorButton>::empty(),
    {
        CabinController { buttons: Vec::with_capacity(available_floors as usize) }
    }
}

} // verus!
