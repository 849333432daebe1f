use crate::collections::{
    ordered_get_index, ordered_insert, ordered_len, ordered_new, ordered_shift_remove,
};
use crate::pearl::{Pearl, PearlFault, PearlId, PearlRunner, PearlStage};
use crate::resources::BobaResources;
use crate::stage::BobaStage;
use crate::storage::controller_storage::{ControllerStorage, PearlSlot};
use crate::storage::stage_storage::StageRunner;
use vstd::prelude::*;

verus! {

/// What one tick of a stage leaves behind: the storage, the resources, and
/// the faults of the pearls whose update did not go through, in the order in
/// which the pearls ran.
pub struct StageRun<T, R> {
    pub cells: Map<u64, PearlSlot<T>>,
    pub resources: Map<u64, R>,
    pub faults: Seq<PearlFault>,
}

/// `faults` with the fault of one more run behind them, if it had one.
pub open spec fn with_fault(faults: Seq<PearlFault>, fault: Option<PearlFault>) -> Seq<PearlFault> {
    match fault {
        Some(fault) => faults.push(fault),
        None => faults,
    }
}

/// What running the pearls `ids`, first to last, with the payload `data`
/// leaves behind. Each pearl runs on what the ones before it left, whether or
/// not they faulted.
pub open spec fn ran_all<Stage, T>(
    ids: Seq<u64>,
    data: Stage::StageData,
    cells: Map<u64, PearlSlot<T>>,
    resources: Map<u64, T::Resource>,
) -> StageRun<T, T::Resource> where T: PearlStage<Stage>, Stage: BobaStage<T::Resource>
    decreases ids.len(),
{
    if ids.len() == 0 {
        StageRun { cells, resources, faults: Seq::empty() }
    } else {
        let before = ran_all::<Stage, T>(ids.drop_last(), data, cells, resources);
        let last = crate::pearl::ran::<Stage, T>(
            Pearl::of(PearlId::of(ids.last())),
            data,
            before.cells,
            before.resources,
        );
        StageRun {
            cells: last.cells,
            resources: last.resources,
            faults: with_fault(before.faults, last.fault),
        }
    }
}

/// No fault keeps a pearl from running: the pearl at any position of `ids`
/// runs on what the pearls before it left, whatever faults they had, and
/// its own fault, if any, goes behind theirs.
pub proof fn lemma_every_pearl_runs<Stage, T>(
    ids: Seq<u64>,
    data: Stage::StageData,
    cells: Map<u64, PearlSlot<T>>,
    resources: Map<u64, T::Resource>,
    at: int,
) where T: PearlStage<Stage>, Stage: BobaStage<T::Resource>
    requires
        0 <= at < ids.len(),
    ensures
        ({
            let before = ran_all::<Stage, T>(ids.take(at), data, cells, resources);
            let this = crate::pearl::ran::<Stage, T>(
                Pearl::of(PearlId::of(ids[at])),
                data,
                before.cells,
                before.resources,
            );
            let after = ran_all::<Stage, T>(ids.take(at + 1), data, cells, resources);
            &&& after.cells == this.cells
            &&& after.resources == this.resources
            &&& after.faults == with_fault(before.faults, this.fault)
        }),
{
    assert(ids.take(at + 1).drop_last() =~= ids.take(at));
}

/// The faults of the pearls that ran first stay on record, in their order,
/// whatever happens to the pearls that run after them.
pub proof fn lemma_faults_are_kept<Stage, T>(
    ids: Seq<u64>,
    data: Stage::StageData,
    cells: Map<u64, PearlSlot<T>>,
    resources: Map<u64, T::Resource>,
    at: int,
) where T: PearlStage<Stage>, Stage: BobaStage<T::Resource>
    requires
        0 <= at <= ids.len(),
    ensures
        ran_all::<Stage, T>(ids.take(at), data, cells, resources).faults.is_prefix_of(
            ran_all::<Stage, T>(ids, data, cells, resources).faults,
        ),
    decreases ids.len() - at,
{
    if at == ids.len() {
        assert(ids.take(at) =~= ids);
    } else {
        lemma_every_pearl_runs::<Stage, T>(ids, data, cells, resources, at);
        lemma_faults_are_kept::<Stage, T>(ids, data, cells, resources, at + 1);
    }
}

/// Every fault of a tick names one of `ids`: no fault is recorded under the
/// identifier of a pearl that is not registered.
pub proof fn lemma_faults_name_registered_pearls<Stage, T>(
    ids: Seq<u64>,
    data: Stage::StageData,
    cells: Map<u64, PearlSlot<T>>,
    resources: Map<u64, T::Resource>,
) where T: PearlStage<Stage>, Stage: BobaStage<T::Resource>
    ensures
        forall|at: int|
            0 <= at < ran_all::<Stage, T>(ids, data, cells, resources).faults.len()
                ==> ids.contains(
                (#[trigger] ran_all::<Stage, T>(ids, data, cells, resources).faults[at]).id@,
            ),
    decreases ids.len(),
{
    if ids.len() > 0 {
        let front = ids.drop_last();
        lemma_faults_name_registered_pearls::<Stage, T>(front, data, cells, resources);
        crate::pearl::lemma_id_of_raw(ids.last(), PearlId::of(ids.last()));
        crate::pearl::lemma_pearl_of_ident::<T>(PearlId::of(ids.last()));
        let before = ran_all::<Stage, T>(front, data, cells, resources).faults;
        let all = ran_all::<Stage, T>(ids, data, cells, resources).faults;
        assert forall|at: int| 0 <= at < all.len() implies ids.contains(
            (#[trigger] all[at]).id@,
        ) by {
            if at < before.len() {
                assert(all[at] == before[at]);
                let found = choose|found: int|
                    0 <= found < front.len() && front[found] == before[at].id@;
                assert(ids[found] == all[at].id@);
            } else {
                assert(ids[ids.len() - 1] == all[at].id@);
            }
        }
    }
}

/// The registry of one stage: the pearls that run in it, each once, in the
/// order in which they were first added. Its view is the sequence of their
/// raw identifiers.
pub struct PearlStorage<Stage> {
    pearls: indexmap::IndexSet<u64>,
    stage: core::marker::PhantomData<Stage>,
}

impl<Stage> View for PearlStorage<Stage> {
    type V = Seq<u64>;

    closed spec fn view(&self) -> Seq<u64> {
        crate::collections::ordered_ids(self.pearls)
    }
}

impl<Stage> Default for PearlStorage<Stage> {
    /// A registry without pearls.
    fn default() -> (storage: PearlStorage<Stage>)
        ensures
            storage.well_formed(),
            storage@ == Seq::<u64>::empty(),
    {
        PearlStorage { pearls: ordered_new(), stage: core::marker::PhantomData }
    }
}

impl<Stage> PearlStorage<Stage> {
    /// What every registry keeps: no pearl is registered twice.
    pub open spec fn well_formed(&self) -> bool {
        self@.no_duplicates()
    }

    /// The number of pearls registered.
    pub fn len(&self) -> (n: usize)
        ensures
            n == self@.len(),
    {
        ordered_len(&self.pearls)
    }

    /// Registers `pearl`. A pearl that is registered already keeps its place
    /// and runs once, as before.
    pub fn add<T>(&mut self, pearl: Pearl<T>) where
        T: PearlStage<Stage>,
        Stage: BobaStage<T::Resource>,

        requires
            old(self).well_formed(),
        ensures
            final(self).well_formed(),
            final(self)@ == crate::collections::with(old(self)@, pearl.ident()@),
    {
        let _ = ordered_insert(&mut self.pearls, pearl.id().raw());
        proof {
            crate::collections::lemma_with(old(self)@, pearl.ident()@);
        }
    }

    /// Takes the pearl under `id` out of the registry; the others keep their
    /// order. Nothing changes where it is not registered.
    pub fn remove(&mut self, id: &PearlId)
        requires
            old(self).well_formed(),
        ensures
            final(self).well_formed(),
            final(self)@ == crate::collections::without(old(self)@, id@),
            !final(self)@.contains(id@),
            !old(self)@.contains(id@) ==> final(self)@ == old(self)@,
    {
        let _ = ordered_shift_remove(&mut self.pearls, id.raw());
        proof {
            crate::collections::lemma_without(old(self)@, id@);
        }
    }

    /// Runs every registered pearl once, first to last, with the payload
    /// `data`, and answers with the faults. A pearl that cannot be borrowed
    /// or whose update fails is recorded and passed over; the ones behind it
    /// run all the same.
    pub fn update<T>(
        &mut self,
        data: &Stage::StageData,
        controllers: &mut ControllerStorage<T>,
        resources: &mut BobaResources<T::Resource>,
    ) -> (faults: Vec<PearlFault>) where T: PearlStage<Stage>, Stage: BobaStage<T::Resource>
        requires
            old(controllers).well_formed(),
            old(resources).well_formed(),
        ensures
            final(controllers).well_formed(),
            final(resources).well_formed(),
            final(self)@ == old(self)@,
            final(controllers)@ == ran_all::<Stage, T>(
                old(self)@,
                *data,
                old(controllers)@,
                old(resources)@,
            ).cells,
            final(resources)@ == ran_all::<Stage, T>(
                old(self)@,
                *data,
                old(controllers)@,
                old(resources)@,
            ).resources,
            faults@ == ran_all::<Stage, T>(
                old(self)@,
                *data,
                old(controllers)@,
                old(resources)@,
            ).faults,
    {
        let mut faults: Vec<PearlFault> = Vec::new();
        let n: usize = ordered_len(&self.pearls);
        let mut at: usize = 0;
        while at < n
            invariant
                at <= n,
                n == self@.len(),
                self@ == old(self)@,
                controllers.well_formed(),
                resources.well_formed(),
                controllers@ == ran_all::<Stage, T>(
                    self@.take(at as int),
                    *data,
                    old(controllers)@,
                    old(resources)@,
                ).cells,
                resources@ == ran_all::<Stage, T>(
                    self@.take(at as int),
                    *data,
                    old(controllers)@,
                    old(resources)@,
                ).resources,
                faults@ == ran_all::<Stage, T>(
                    self@.take(at as int),
                    *data,
                    old(controllers)@,
                    old(resources)@,
                ).faults,
            decreases n - at,
        {
            let raw: u64 = match ordered_get_index(&self.pearls, at) {
                Some(raw) => raw,
                None => 0,
            };
            let mut pearl: Pearl<T> = Pearl::from_id(PearlId::from_raw(raw));
            proof {
                let ids = self@.take(at as int + 1);
                assert(ids.drop_last() =~= self@.take(at as int));
            }
            let fault = PearlRunner::<Stage, T>::run(&mut pearl, data, controllers, resources);
            match fault {
                Some(fault) => {
                    faults.push(fault);
                },
                None => {},
            }
            at = at + 1;
        }
        proof {
            assert(self@.take(n as int) =~= self@);
        }
        faults
    }
}

impl<Stage, T> StageRunner<T, T::Resource> for PearlStorage<Stage> where
    T: PearlStage<Stage>,
    Stage: BobaStage<T::Resource>,
 {
    open spec fn pearls(&self) -> Seq<u64> {
        self@
    }

    open spec fn well_formed(&self) -> bool {
        self@.no_duplicates()
    }

    /// One tick of the stage hands every pearl the payload that the marker
    /// reads from the resources as they stand when the tick begins.
    open spec fn ran(
        &self,
        ids: Seq<u64>,
        cells: Map<u64, PearlSlot<T>>,
        resources: Map<u64, T::Resource>,
    ) -> StageRun<T, T::Resource> {
        ran_all::<Stage, T>(ids, Stage::payload(resources), cells, resources)
    }

    fn add(&mut self, pearl: Pearl<T>) {
        PearlStorage::<Stage>::add::<T>(self, pearl)
    }

    fn remove(&mut self, id: &PearlId) {
        PearlStorage::<Stage>::remove(self, id)
    }

    fn run(
        &mut self,
        controllers: &mut ControllerStorage<T>,
        resources: &mut BobaResources<T::Resource>,
    ) -> (faults: Vec<PearlFault>) {
        let data = Stage::data(resources);
        PearlStorage::<Stage>::update::<T>(self, &data, controllers, resources)
    }
}

} // verus!
