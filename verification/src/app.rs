use crate::pearl::{AsPearl, Pearl, PearlFault, PearlIds, PearlRegister};
use crate::resources::BobaResources;
use crate::storage::controller_storage::{ControllerStorage, PearlSlot};
use crate::storage::stage_storage::{StageRunner, StageStorage};
use vstd::prelude::*;

verus! {

/// The app: the counter that every identifier is drawn from, the resources,
/// the storage of the pearls' state, and the stages in the order in which
/// they run. One call of `update` is one tick.
pub struct BobaApp<T: PearlRegister, S: ?Sized + StageRunner<T, T::Resource>> {
    ids: PearlIds,
    resources: BobaResources<T::Resource>,
    controllers: ControllerStorage<T>,
    stages: StageStorage<T, T::Resource, S>,
}

impl<T: PearlRegister, S: ?Sized + StageRunner<T, T::Resource>> Default for BobaApp<T, S> {
    /// An app without resources, pearls or stages.
    fn default() -> (app: BobaApp<T, S>)
        ensures
            app.well_formed(),
            app.counter()@ == 0,
            app.resource_store()@ == Map::<u64, T::Resource>::empty(),
            app.controller_store()@ == Map::<u64, PearlSlot<T>>::empty(),
            app.stage_store().stage_list().len() == 0,
    {
        BobaApp {
            ids: PearlIds::new(),
            resources: BobaResources::new(),
            controllers: ControllerStorage::new(),
            stages: StageStorage::new(),
        }
    }
}

impl<T: PearlRegister, S: ?Sized + StageRunner<T, T::Resource>> BobaApp<T, S> {
    /// The counter of the app.
    pub closed spec fn counter(&self) -> PearlIds {
        self.ids
    }

    /// The resource store of the app.
    pub closed spec fn resource_store(&self) -> BobaResources<T::Resource> {
        self.resources
    }

    /// The storage of the pearls of the app.
    pub closed spec fn controller_store(&self) -> ControllerStorage<T> {
        self.controllers
    }

    /// The stages of the app.
    pub closed spec fn stage_store(&self) -> StageStorage<T, T::Resource, S> {
        self.stages
    }

    /// What every app keeps: what each of its three parts keeps.
    pub open spec fn well_formed(&self) -> bool {
        &&& self.resource_store().well_formed()
        &&& self.controller_store().well_formed()
        &&& self.stage_store().well_formed()
    }

    /// The stages, to add stages and register pearls. The other parts of the
    /// app stay as they are.
    pub fn stages(&mut self) -> (stages: &mut StageStorage<T, T::Resource, S>)
        ensures
            *stages == old(self).stage_store(),
            final(self).stage_store() == *final(stages),
            final(self).controller_store() == old(self).controller_store(),
            final(self).resource_store() == old(self).resource_store(),
            final(self).counter() == old(self).counter(),
    {
        &mut self.stages
    }

    /// The storage of the pearls, to wrap and to borrow. The other parts of
    /// the app stay as they are.
    pub fn controllers(&mut self) -> (controllers: &mut ControllerStorage<T>)
        ensures
            *controllers == old(self).controller_store(),
            final(self).controller_store() == *final(controllers),
            final(self).stage_store() == old(self).stage_store(),
            final(self).resource_store() == old(self).resource_store(),
            final(self).counter() == old(self).counter(),
    {
        &mut self.controllers
    }

    /// The resource store, to put resources in and look them up. The other
    /// parts of the app stay as they are.
    pub fn resources(&mut self) -> (resources: &mut BobaResources<T::Resource>)
        ensures
            *resources == old(self).resource_store(),
            final(self).resource_store() == *final(resources),
            final(self).stage_store() == old(self).stage_store(),
            final(self).controller_store() == old(self).controller_store(),
            final(self).counter() == old(self).counter(),
    {
        &mut self.resources
    }

    /// The counter, for wraps into storages that the app does not own: they
    /// share no identifier with the pearls of the app. The other parts of
    /// the app stay as they are.
    pub fn ids(&mut self) -> (ids: &mut PearlIds)
        ensures
            *ids == old(self).counter(),
            final(self).counter() == *final(ids),
            final(self).stage_store() == old(self).stage_store(),
            final(self).controller_store() == old(self).controller_store(),
            final(self).resource_store() == old(self).resource_store(),
    {
        &mut self.ids
    }

    /// Wraps `value` into the app's storage under the next identifier of the
    /// app's counter, and answers with the first handle to the new pearl.
    pub fn wrap(&mut self, value: T) -> (pearl: Pearl<T>)
        requires
            old(self).well_formed(),
        ensures
            final(self).well_formed(),
            pearl.ident()@ == crate::pearl::nth_raw(old(self).counter()@, 0),
            final(self).counter()@ == crate::pearl::nth_raw(old(self).counter()@, 1),
            final(self).controller_store()@ == crate::storage::controller_storage::wrapped(
                old(self).controller_store()@,
                pearl.ident()@,
                value,
            ),
            final(self).stage_store() == old(self).stage_store(),
            final(self).resource_store() == old(self).resource_store(),
    {
        value.as_pearl(&mut self.ids, &mut self.controllers)
    }

    /// Lets the pearl behind `pearl` register with the stages it takes part
    /// in.
    pub fn register(&mut self, pearl: &Pearl<T>)
        requires
            old(self).well_formed(),
        ensures
            final(self).well_formed(),
            crate::storage::stage_storage::same_stages(
                old(self).stage_store().stage_list(),
                final(self).stage_store().stage_list(),
            ),
            final(self).stage_store()@ == T::registered(*pearl, old(self).stage_store()@),
            final(self).controller_store() == old(self).controller_store(),
            final(self).resource_store() == old(self).resource_store(),
            final(self).counter() == old(self).counter(),
    {
        T::register(pearl.clone(), &mut self.stages);
    }

    /// One tick: every stage runs once, in the order in which the stages were
    /// added, each on what the stages before it left. The answer holds the
    /// faults of the pearls that could not be borrowed or whose update
    /// failed; none of them keeps another pearl or stage from running.
    pub fn update(&mut self) -> (faults: Vec<PearlFault>)
        requires
            old(self).well_formed(),
        ensures
            final(self).well_formed(),
            final(self).counter() == old(self).counter(),
            crate::storage::stage_storage::same_stages(
                old(self).stage_store().stage_list(),
                final(self).stage_store().stage_list(),
            ),
            final(self).stage_store()@ == old(self).stage_store()@,
            final(self).controller_store()@ == crate::storage::stage_storage::ran_stages(
                old(self).stage_store().stage_list(),
                old(self).controller_store()@,
                old(self).resource_store()@,
            ).cells,
            final(self).resource_store()@ == crate::storage::stage_storage::ran_stages(
                old(self).stage_store().stage_list(),
                old(self).controller_store()@,
                old(self).resource_store()@,
            ).resources,
            faults@ == crate::storage::stage_storage::ran_stages(
                old(self).stage_store().stage_list(),
                old(self).controller_store()@,
                old(self).resource_store()@,
            ).faults,
    {
        self.stages.run(&mut self.controllers, &mut self.resources)
    }
}

} // verus!
