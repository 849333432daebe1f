use crate::resources::BobaResources;
use vstd::prelude::*;

verus! {

/// A stage marker: a type that names one update phase and the payload that
/// every pearl of the phase is handed. A marker holds no state; what it hands
/// out each tick it reads from the resources, where the collaborators that
/// supply it (a clock, a window's event queue) have put it.
pub trait BobaStage<R> {
    /// The payload of the phase.
    type StageData;

    /// The payload that the phase hands out over `resources`.
    open spec fn payload(resources: Map<u64, R>) -> Self::StageData {
        arbitrary()
    }

    /// Obtains the payload of the phase for this tick.
    fn data(resources: &BobaResources<R>) -> (data: Self::StageData)
        requires
            resources.well_formed(),
        ensures
            data == Self::payload(resources@),
    ;
}

} // verus!
