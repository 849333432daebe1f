use crate::pearl::{Pearl, PearlFault, PearlId};
use crate::resources::BobaResources;
use crate::storage::controller_storage::{ControllerStorage, PearlSlot};
use crate::storage::pearl_storage::StageRun;
use vstd::prelude::*;

verus! {

/// A stage as the app sees it: a registry of pearls that can be run for one
/// tick, whatever its payload is.
pub trait StageRunner<T, R> {
    /// The raw identifiers of the pearls registered, in the order they run.
    open spec fn pearls(&self) -> Seq<u64> {
        arbitrary()
    }

    /// What the stage keeps true of itself.
    open spec fn well_formed(&self) -> bool {
        arbitrary()
    }

    /// What one tick of the stage leaves behind, were `ids` its pearls. This
    /// is what the stage is: registering pearls and running does not change
    /// it.
    open spec fn ran(
        &self,
        ids: Seq<u64>,
        cells: Map<u64, PearlSlot<T>>,
        resources: Map<u64, R>,
    ) -> StageRun<T, R> {
        arbitrary()
    }

    /// Registers `pearl` with the stage.
    fn add(&mut self, pearl: Pearl<T>)
        requires
            old(self).well_formed(),
        ensures
            final(self).well_formed(),
            final(self).pearls() == crate::collections::with(old(self).pearls(), pearl.ident()@),
            forall|ids: Seq<u64>, cells: Map<u64, PearlSlot<T>>, resources: Map<u64, R>|
                #[trigger] final(self).ran(ids, cells, resources) == old(self).ran(
                    ids,
                    cells,
                    resources,
                ),
    ;

    /// Takes the pearl under `id` out of the stage.
    fn remove(&mut self, id: &PearlId)
        requires
            old(self).well_formed(),
        ensures
            final(self).well_formed(),
            final(self).pearls() == crate::collections::without(old(self).pearls(), id@),
            forall|ids: Seq<u64>, cells: Map<u64, PearlSlot<T>>, resources: Map<u64, R>|
                #[trigger] final(self).ran(ids, cells, resources) == old(self).ran(
                    ids,
                    cells,
                    resources,
                ),
    ;

    /// Runs the stage for one tick and answers with the faults.
    fn run(
        &mut self,
        controllers: &mut ControllerStorage<T>,
        resources: &mut BobaResources<R>,
    ) -> (faults: Vec<PearlFault>)
        requires
            old(self).well_formed(),
            old(controllers).well_formed(),
            old(resources).well_formed(),
        ensures
            final(self).well_formed(),
            final(controllers).well_formed(),
            final(resources).well_formed(),
            final(self).pearls() == old(self).pearls(),
            forall|ids: Seq<u64>, cells: Map<u64, PearlSlot<T>>, resources: Map<u64, R>|
                #[trigger] final(self).ran(ids, cells, resources) == old(self).ran(
                    ids,
                    cells,
                    resources,
                ),
            final(controllers)@ == old(self).ran(
                old(self).pearls(),
                old(controllers)@,
                old(resources)@,
            ).cells,
            final(resources)@ == old(self).ran(
                old(self).pearls(),
                old(controllers)@,
                old(resources)@,
            ).resources,
            faults@ == old(self).ran(
                old(self).pearls(),
                old(controllers)@,
                old(resources)@,
            ).faults,
    ;
}

/// Whether `after` are the stages `before`, whatever pearls each holds.
pub open spec fn same_stages<T, R, S: ?Sized + StageRunner<T, R>>(
    before: Seq<Box<S>>,
    after: Seq<Box<S>>,
) -> bool {
    &&& after.len() == before.len()
    &&& forall|at: int, ids: Seq<u64>, cells: Map<u64, PearlSlot<T>>, resources: Map<u64, R>|
        0 <= at < before.len() ==> #[trigger] after[at].ran(ids, cells, resources)
            == before[at].ran(ids, cells, resources)
}

/// The pearls of each of `stages`.
pub open spec fn pearls_of<T, R, S: ?Sized + StageRunner<T, R>>(stages: Seq<Box<S>>) -> Seq<
    Seq<u64>,
> {
    Seq::new(stages.len(), |at: int| stages[at].pearls())
}

/// What running `stages`, first to last, leaves behind. Each stage works on
/// what the ones before it left.
pub open spec fn ran_stages<T, R, S: ?Sized + StageRunner<T, R>>(
    stages: Seq<Box<S>>,
    cells: Map<u64, PearlSlot<T>>,
    resources: Map<u64, R>,
) -> StageRun<T, R>
    decreases stages.len(),
{
    if stages.len() == 0 {
        StageRun { cells, resources, faults: Seq::empty() }
    } else {
        let before = ran_stages(stages.drop_last(), cells, resources);
        let last = stages.last().ran(
            stages.last().pearls(),
            before.cells,
            before.resources,
        );
        StageRun {
            cells: last.cells,
            resources: last.resources,
            faults: before.faults + last.faults,
        }
    }
}

/// Stages that stayed the stages they were, with the pearls they had, run
/// alike: one tick leaves behind what it would have left before. So the
/// ticks of an app follow one from the other by the same rule.
pub proof fn lemma_same_stages_run_alike<T, R, S: ?Sized + StageRunner<T, R>>(
    before: Seq<Box<S>>,
    after: Seq<Box<S>>,
    cells: Map<u64, PearlSlot<T>>,
    resources: Map<u64, R>,
)
    requires
        same_stages(before, after),
        pearls_of(after) == pearls_of(before),
    ensures
        ran_stages(after, cells, resources) == ran_stages(before, cells, resources),
    decreases before.len(),
{
    if before.len() > 0 {
        let last = before.len() - 1;
        assert(pearls_of(after)[last] == pearls_of(before)[last]);
        assert forall|at: int| 0 <= at < last implies #[trigger] pearls_of(after.drop_last())[at]
            == pearls_of(before.drop_last())[at] by {
            assert(pearls_of(after)[at] == pearls_of(before)[at]);
        }
        assert(pearls_of(after.drop_last()) =~= pearls_of(before.drop_last()));
        lemma_same_stages_run_alike(before.drop_last(), after.drop_last(), cells, resources);
        let so_far = ran_stages(before.drop_last(), cells, resources);
        assert(after[last].ran(after[last].pearls(), so_far.cells, so_far.resources)
            == before[last].ran(after[last].pearls(), so_far.cells, so_far.resources));
    }
}

/// The stages of an app, in the order in which they were added, which is the
/// order in which they run. Its view gives the pearls of each stage. `S` is
/// what a stage is held as: one kind of stage, or `dyn StageRunner<T, R>` for
/// stages of any kind side by side.
pub struct StageStorage<T, R, S: ?Sized + StageRunner<T, R>> {
    stages: Vec<Box<S>>,
    pearl: core::marker::PhantomData<T>,
    resource: core::marker::PhantomData<R>,
}

impl<T, R, S: ?Sized + StageRunner<T, R>> View for StageStorage<T, R, S> {
    type V = Seq<Seq<u64>>;

    open spec fn view(&self) -> Seq<Seq<u64>> {
        pearls_of(self.stage_list())
    }
}

impl<T, R, S: ?Sized + StageRunner<T, R>> StageStorage<T, R, S> {
    /// The stages, first to last.
    pub closed spec fn stage_list(&self) -> Seq<Box<S>> {
        self.stages@
    }

    /// What every stage storage keeps: what each of its stages keeps.
    pub open spec fn well_formed(&self) -> bool {
        forall|at: int|
            0 <= at < self.stage_list().len() ==> (#[trigger] self.stage_list()[at]).well_formed()
    }

    /// A storage without stages.
    pub fn new() -> (storage: StageStorage<T, R, S>)
        ensures
            storage.well_formed(),
            storage.stage_list().len() == 0,
    {
        StageStorage {
            stages: Vec::new(),
            pearl: core::marker::PhantomData,
            resource: core::marker::PhantomData,
        }
    }

    /// The number of stages.
    pub fn len(&self) -> (n: usize)
        ensures
            n == self.stage_list().len(),
    {
        self.stages.len()
    }

    /// Adds `stage` behind the stages there are and answers with its
    /// position, by which pearls are registered with it.
    pub fn add_stage(&mut self, stage: Box<S>) -> (at: usize)
        requires
            old(self).well_formed(),
            stage.well_formed(),
        ensures
            final(self).well_formed(),
            at == old(self).stage_list().len(),
            final(self).stage_list() == old(self).stage_list().push(stage),
    {
        let at: usize = self.stages.len();
        self.stages.push(stage);
        assert forall|i: int| 0 <= i < self.stage_list().len() implies (
        #[trigger] self.stage_list()[i]).well_formed() by {
            if i < at {
                assert(self.stage_list()[i] == old(self).stage_list()[i]);
            }
        }
        at
    }

    /// Registers `pearl` with the stage at `at`, and answers whether there is
    /// such a stage. The other stages are left as they are.
    pub fn add(&mut self, at: usize, pearl: Pearl<T>) -> (found: bool)
        requires
            old(self).well_formed(),
        ensures
            final(self).well_formed(),
            found == (at < old(self).stage_list().len()),
            same_stages(old(self).stage_list(), final(self).stage_list()),
            final(self)@ == if found {
                old(self)@.update(
                    at as int,
                    crate::collections::with(old(self)@[at as int], pearl.ident()@),
                )
            } else {
                old(self)@
            },
    {
        if at < self.stages.len() {
            self.stages[at].add(pearl);
            assert(self@ =~= old(self)@.update(
                at as int,
                crate::collections::with(old(self)@[at as int], pearl.ident()@),
            ));
            true
        } else {
            false
        }
    }

    /// Takes the pearl under `id` out of the stage at `at`, and answers
    /// whether there is such a stage. The other stages are left as they are.
    pub fn remove(&mut self, at: usize, id: &PearlId) -> (found: bool)
        requires
            old(self).well_formed(),
        ensures
            final(self).well_formed(),
            found == (at < old(self).stage_list().len()),
            same_stages(old(self).stage_list(), final(self).stage_list()),
            final(self)@ == if found {
                old(self)@.update(
                    at as int,
                    crate::collections::without(old(self)@[at as int], id@),
                )
            } else {
                old(self)@
            },
    {
        if at < self.stages.len() {
            self.stages[at].remove(id);
            assert(self@ =~= old(self)@.update(
                at as int,
                crate::collections::without(old(self)@[at as int], id@),
            ));
            true
        } else {
            false
        }
    }

    /// Runs every stage once, first to last, and answers with the faults of
    /// all of them, in the order in which they arose.
    pub fn run(
        &mut self,
        controllers: &mut ControllerStorage<T>,
        resources: &mut BobaResources<R>,
    ) -> (faults: Vec<PearlFault>)
        requires
            old(self).well_formed(),
            old(controllers).well_formed(),
            old(resources).well_formed(),
        ensures
            final(self).well_formed(),
            final(controllers).well_formed(),
            final(resources).well_formed(),
            same_stages(old(self).stage_list(), final(self).stage_list()),
            final(self)@ == old(self)@,
            final(controllers)@ == ran_stages(
                old(self).stage_list(),
                old(controllers)@,
                old(resources)@,
            ).cells,
            final(resources)@ == ran_stages(
                old(self).stage_list(),
                old(controllers)@,
                old(resources)@,
            ).resources,
            faults@ == ran_stages(
                old(self).stage_list(),
                old(controllers)@,
                old(resources)@,
            ).faults,
    {
        let mut faults: Vec<PearlFault> = Vec::new();
        let n: usize = self.stages.len();
        let mut at: usize = 0;
        while at < n
            invariant
                at <= n,
                n == self.stage_list().len(),
                n == old(self).stage_list().len(),
                self.well_formed(),
                controllers.well_formed(),
                resources.well_formed(),
                same_stages(old(self).stage_list(), self.stage_list()),
                self@ == old(self)@,
                forall|later: int|
                    at <= later < n ==> self.stage_list()[later] == old(self).stage_list()[later],
                controllers@ == ran_stages(
                    old(self).stage_list().take(at as int),
                    old(controllers)@,
                    old(resources)@,
                ).cells,
                resources@ == ran_stages(
                    old(self).stage_list().take(at as int),
                    old(controllers)@,
                    old(resources)@,
                ).resources,
                faults@ == ran_stages(
                    old(self).stage_list().take(at as int),
                    old(controllers)@,
                    old(resources)@,
                ).faults,
            decreases n - at,
        {
            let mut more = self.stages[at].run(controllers, resources);
            faults.append(&mut more);
            proof {
                let done = old(self).stage_list().take(at as int + 1);
                assert(done.drop_last() =~= old(self).stage_list().take(at as int));
            }
            at = at + 1;
        }
        proof {
            assert(old(self).stage_list().take(n as int) =~= old(self).stage_list());
        }
        faults
    }
}

} // verus!
