use crate::collections::{
    key_index_get, key_index_insert, key_index_new, ordered_get_index, ordered_insert, ordered_len,
    ordered_new, ordered_shift_remove, KeyIndex,
};
use crate::pearl::{Pearl, PearlError, PearlFault, PearlId, PearlRef, PearlRefMut};
use crate::storage::controller_storage::{ControllerStorage, PearlSlot};
use vstd::prelude::*;

verus! {

/// What a kind of pearl needs to be gathered by kind: a key that stands for
/// the kind. Two kinds with one key share a group.
pub trait TaroRender {
    /// The key of the kind.
    open spec fn kind() -> u64 {
        arbitrary()
    }

    /// The key of the kind.
    fn type_key() -> (key: u64)
        ensures
            key == Self::kind(),
    ;
}

/// The pearls of `kind` in `groups`, in the order in which they were added;
/// none where no pearl of the kind was ever added.
pub open spec fn group_of(groups: Map<u64, Seq<u64>>, kind: u64) -> Seq<u64> {
    if groups.contains_key(kind) {
        groups[kind]
    } else {
        Seq::empty()
    }
}

/// The record of a borrow of `id` that was refused for `error`.
pub open spec fn refused(id: u64, error: crate::pearl::AliasError) -> PearlFault {
    PearlFault { id: PearlId::of(id), error: PearlError::Alias(error) }
}

/// `faults` with the refusal of one more borrow behind them, if it was
/// refused.
pub open spec fn with_refusal(
    faults: Seq<PearlFault>,
    id: u64,
    refusal: Option<crate::pearl::AliasError>,
) -> Seq<PearlFault> {
    match refusal {
        Some(error) => faults.push(refused(id, error)),
        None => faults,
    }
}

/// What gathering read guards leaves behind: the storage, the pearls on
/// which a guard went out, in order, and the refusals of the others, in
/// order.
pub struct Collected<T> {
    pub cells: Map<u64, PearlSlot<T>>,
    pub ids: Seq<u64>,
    pub faults: Seq<PearlFault>,
}

/// What trying a read borrow on each of `ids`, first to last, leaves behind.
/// A pearl that refuses is left out, and the ones behind it are tried all
/// the same.
pub open spec fn collected<T>(ids: Seq<u64>, cells: Map<u64, PearlSlot<T>>) -> Collected<T>
    decreases ids.len(),
{
    if ids.len() == 0 {
        Collected { cells, ids: Seq::empty(), faults: Seq::empty() }
    } else {
        let before = collected(ids.drop_last(), cells);
        let id = ids.last();
        Collected {
            cells: crate::storage::controller_storage::lent(before.cells, id),
            ids: if crate::storage::controller_storage::read_refusal(before.cells, id) is None {
                before.ids.push(id)
            } else {
                before.ids
            },
            faults: with_refusal(
                before.faults,
                id,
                crate::storage::controller_storage::read_refusal(before.cells, id),
            ),
        }
    }
}

/// What gathering write guards leaves behind: the storage, for each guard
/// that went out the pearl and the state that left with the guard, and the
/// refusals of the others, in order.
pub struct CollectedMut<T> {
    pub cells: Map<u64, PearlSlot<T>>,
    pub taken: Seq<(u64, T)>,
    pub faults: Seq<PearlFault>,
}

/// What trying a write borrow on each of `ids`, first to last, leaves
/// behind. A pearl that refuses is left out, and the ones behind it are
/// tried all the same.
pub open spec fn collected_mut<T>(ids: Seq<u64>, cells: Map<u64, PearlSlot<T>>) -> CollectedMut<T>
    decreases ids.len(),
{
    if ids.len() == 0 {
        CollectedMut { cells, taken: Seq::empty(), faults: Seq::empty() }
    } else {
        let before = collected_mut(ids.drop_last(), cells);
        let id = ids.last();
        CollectedMut {
            cells: crate::storage::controller_storage::lent_mut(before.cells, id),
            taken: if crate::storage::controller_storage::write_refusal(before.cells, id) is None {
                before.taken.push(
                    (id, crate::storage::controller_storage::state_of(before.cells, id).unwrap()),
                )
            } else {
                before.taken
            },
            faults: with_refusal(
                before.faults,
                id,
                crate::storage::controller_storage::write_refusal(before.cells, id),
            ),
        }
    }
}

/// The test that keeps the pearls of `cells` that grant a read borrow.
pub open spec fn grants_read<T>(cells: Map<u64, PearlSlot<T>>) -> spec_fn(u64) -> bool {
    |id: u64| crate::storage::controller_storage::read_refusal(cells, id) is None
}

/// The test that keeps the pearls of `cells` that grant a write borrow.
pub open spec fn grants_write<T>(cells: Map<u64, PearlSlot<T>>) -> spec_fn(u64) -> bool {
    |id: u64| crate::storage::controller_storage::write_refusal(cells, id) is None
}

/// Gathering read guards leaves alone every pearl that it does not try.
pub proof fn lemma_collected_frame<T>(ids: Seq<u64>, cells: Map<u64, PearlSlot<T>>, id: u64)
    requires
        !ids.contains(id),
    ensures
        collected(ids, cells).cells.dom() == cells.dom(),
        cells.contains_key(id) ==> collected(ids, cells).cells[id] == cells[id],
    decreases ids.len(),
{
    if ids.len() > 0 {
        let front = ids.drop_last();
        assert(!front.contains(id));
        lemma_collected_frame(front, cells, id);
    }
}

/// Gathering read guards over pearls that are each tried once gives the
/// pearls that grant a read borrow as the storage stands, in the order in
/// which they were tried; the pearls that refuse are left out and nothing
/// else is.
pub proof fn lemma_collect_skips_refusals<T>(ids: Seq<u64>, cells: Map<u64, PearlSlot<T>>)
    requires
        ids.no_duplicates(),
    ensures
        collected(ids, cells).ids == ids.filter(grants_read(cells)),
    decreases ids.len(),
{
    reveal(Seq::filter);
    if ids.len() > 0 {
        let front = ids.drop_last();
        let last = ids.last();
        assert(!front.contains(last));
        lemma_collect_skips_refusals(front, cells);
        lemma_collected_frame(front, cells, last);
    }
}

/// Gathering read guards over pearls that all grant one, each tried once,
/// gives a guard on every one of them, in the order in which they were
/// added.
pub proof fn lemma_collect_keeps_order<T>(ids: Seq<u64>, cells: Map<u64, PearlSlot<T>>)
    requires
        ids.no_duplicates(),
        forall|at: int|
            0 <= at < ids.len() ==> crate::storage::controller_storage::read_refusal(
                cells,
                #[trigger] ids[at],
            ) is None,
    ensures
        collected(ids, cells).ids == ids,
    decreases ids.len(),
{
    if ids.len() > 0 {
        let front = ids.drop_last();
        let last = ids.last();
        assert(!front.contains(last));
        assert forall|at: int|
            0 <= at < front.len() implies crate::storage::controller_storage::read_refusal(
            cells,
            #[trigger] front[at],
        ) is None by {
            assert(front[at] == ids[at]);
        }
        lemma_collect_keeps_order(front, cells);
        lemma_collected_frame(front, cells, last);
    }
}

/// Gathering write guards leaves alone every pearl that it does not try.
pub proof fn lemma_collected_mut_frame<T>(ids: Seq<u64>, cells: Map<u64, PearlSlot<T>>, id: u64)
    requires
        !ids.contains(id),
    ensures
        collected_mut(ids, cells).cells.dom() == cells.dom(),
        cells.contains_key(id) ==> collected_mut(ids, cells).cells[id] == cells[id],
    decreases ids.len(),
{
    if ids.len() > 0 {
        let front = ids.drop_last();
        assert(!front.contains(id));
        lemma_collected_mut_frame(front, cells, id);
    }
}

/// Gathering write guards over pearls that are each tried once gives the
/// pearls that grant a write borrow as the storage stands, in the order in
/// which they were tried, each with the state it had.
pub proof fn lemma_collect_mut_skips_refusals<T>(ids: Seq<u64>, cells: Map<u64, PearlSlot<T>>)
    requires
        ids.no_duplicates(),
    ensures
        collected_mut(ids, cells).taken.len() == ids.filter(grants_write(cells)).len(),
        forall|at: int|
            0 <= at < collected_mut(ids, cells).taken.len() ==> {
                let taken = #[trigger] collected_mut(ids, cells).taken[at];
                &&& taken.0 == ids.filter(grants_write(cells))[at]
                &&& Some(taken.1) == crate::storage::controller_storage::state_of(cells, taken.0)
            },
    decreases ids.len(),
{
    reveal(Seq::filter);
    if ids.len() > 0 {
        let front = ids.drop_last();
        let last = ids.last();
        assert(!front.contains(last));
        lemma_collect_mut_skips_refusals(front, cells);
        lemma_collected_mut_frame(front, cells, last);
        assert forall|at: int| 0 <= at < collected_mut(ids, cells).taken.len() implies {
            let taken = #[trigger] collected_mut(ids, cells).taken[at];
            &&& taken.0 == ids.filter(grants_write(cells))[at]
            &&& Some(taken.1) == crate::storage::controller_storage::state_of(cells, taken.0)
        } by {
            if at < collected_mut(front, cells).taken.len() {
                assert(collected_mut(ids, cells).taken[at] == collected_mut(
                    front,
                    cells,
                ).taken[at]);
            }
        }
    }
}

/// A pearl added under one kind leaves the groups of all other kinds as
/// they are: it is not in them, and their order stands.
pub proof fn lemma_kinds_are_apart(groups: Map<u64, Seq<u64>>, kind: u64, other: u64, id: u64)
    requires
        kind != other,
    ensures
        group_of(
            groups.insert(kind, crate::collections::with(group_of(groups, kind), id)),
            other,
        ) == group_of(groups, other),
{
}

/// Pearls added one after the other to a group stand in it in the order in
/// which they were added.
pub proof fn lemma_added_last_stands_last(ids: Seq<u64>, id: u64)
    requires
        !ids.contains(id),
    ensures
        crate::collections::with(ids, id) == ids.push(id),
        crate::collections::with(ids, id).last() == id,
        crate::collections::with(ids, id).drop_last() == ids,
{
}

/// The live pearls grouped by kind: for each kind the handles added, each
/// once, in the order in which they were first added. Its view maps the key
/// of each kind to the raw identifiers of its pearls.
pub struct TaroRenderPearls {
    kinds: KeyIndex,
    groups: Vec<indexmap::IndexSet<u64>>,
}

impl View for TaroRenderPearls {
    type V = Map<u64, Seq<u64>>;

    closed spec fn view(&self) -> Map<u64, Seq<u64>> {
        Map::new(
            |kind: u64| crate::collections::key_positions(self.kinds).contains_key(kind),
            |kind: u64|
                crate::collections::ordered_ids(
                    self.groups@[crate::collections::key_positions(self.kinds)[kind] as int],
                ),
        )
    }
}

impl Default for TaroRenderPearls {
    /// A collection without pearls.
    fn default() -> (pearls: TaroRenderPearls)
        ensures
            pearls.well_formed(),
            pearls@ == Map::<u64, Seq<u64>>::empty(),
    {
        let pearls = TaroRenderPearls { kinds: key_index_new(), groups: Vec::new() };
        assert(pearls@ =~= Map::<u64, Seq<u64>>::empty());
        pearls
    }
}

impl TaroRenderPearls {
    /// What every collection keeps: each kind leads to a group of its own.
    pub closed spec fn well_formed(&self) -> bool {
        let positions = crate::collections::key_positions(self.kinds);
        &&& forall|kind: u64| #[trigger]
            positions.contains_key(kind) ==> positions[kind] < self.groups@.len()
        &&& forall|a: u64, b: u64|
            positions.contains_key(a) && positions.contains_key(b) && #[trigger] positions[a]
                == #[trigger] positions[b] ==> a == b
        &&& forall|kind: u64| #[trigger]
            positions.contains_key(kind) ==> crate::collections::ordered_ids(
                self.groups@[positions[kind] as int],
            ).no_duplicates()
    }

    /// No group of a well-formed collection holds a pearl twice.
    pub proof fn lemma_groups_hold_each_pearl_once(self, kind: u64)
        requires
            self.well_formed(),
        ensures
            group_of(self@, kind).no_duplicates(),
    {
    }

    /// Adds `pearl` to the group of its kind, behind the pearls that are
    /// there; the group is made if this is the first pearl of the kind. A
    /// pearl that is in the group already keeps its place.
    pub fn add<T>(&mut self, pearl: Pearl<T>) where T: TaroRender
        requires
            old(self).well_formed(),
        ensures
            final(self).well_formed(),
            final(self)@ == old(self)@.insert(
                T::kind(),
                crate::collections::with(group_of(old(self)@, T::kind()), pearl.ident()@),
            ),
    {
        let kind: u64 = T::type_key();
        let raw: u64 = pearl.id().raw();
        match key_index_get(&self.kinds, kind) {
            Some(at) => {
                let _ = ordered_insert(&mut self.groups[at], raw);
                proof {
                    crate::collections::lemma_with(
                        crate::collections::ordered_ids(old(self).groups@[at as int]),
                        raw,
                    );
                }
            },
            None => {
                let mut group = ordered_new();
                let _ = ordered_insert(&mut group, raw);
                proof {
                    crate::collections::lemma_with(Seq::<u64>::empty(), raw);
                }
                let at: usize = self.groups.len();
                self.groups.push(group);
                let _ = key_index_insert(&mut self.kinds, kind, at);
            },
        }
        assert(self@ =~= old(self)@.insert(
            T::kind(),
            crate::collections::with(group_of(old(self)@, T::kind()), pearl.ident()@),
        ));
    }

    /// Takes `pearl` out of the group of its kind; the others keep their
    /// order. Nothing changes where it is not in the group or where there is
    /// no group of the kind.
    pub fn remove<T>(&mut self, pearl: &Pearl<T>) where T: TaroRender
        requires
            old(self).well_formed(),
        ensures
            final(self).well_formed(),
            final(self)@ == if old(self)@.contains_key(T::kind()) {
                old(self)@.insert(
                    T::kind(),
                    crate::collections::without(old(self)@[T::kind()], pearl.ident()@),
                )
            } else {
                old(self)@
            },
    {
        let kind: u64 = T::type_key();
        match key_index_get(&self.kinds, kind) {
            Some(at) => {
                let _ = ordered_shift_remove(&mut self.groups[at], pearl.id().raw());
                proof {
                    crate::collections::lemma_without(
                        crate::collections::ordered_ids(old(self).groups@[at as int]),
                        pearl.ident()@,
                    );
                }
                assert(self@ =~= old(self)@.insert(
                    T::kind(),
                    crate::collections::without(old(self)@[T::kind()], pearl.ident()@),
                ));
            },
            None => {},
        }
    }

    /// Tries a read borrow in `controllers` on every pearl of the kind `T`,
    /// in the order in which they were added, and answers with the guards
    /// that went out. A pearl that refuses is left out; nothing is gathered
    /// where there is no group of the kind.
    pub fn collect<T>(&self, controllers: &mut ControllerStorage<T>) -> (guards: Vec<
        PearlRef<T>,
    >) where T: TaroRender
        requires
            self.well_formed(),
            old(controllers).well_formed(),
        ensures
            final(controllers).well_formed(),
            final(controllers)@ == collected(group_of(self@, T::kind()), old(controllers)@).cells,
            guards@.len() == collected(group_of(self@, T::kind()), old(controllers)@).ids.len(),
            forall|at: int|
                0 <= at < guards@.len() ==> (#[trigger] guards@[at]).ident()@ == collected(
                    group_of(self@, T::kind()),
                    old(controllers)@,
                ).ids[at],
    {
        let (guards, _) = self.collect_with_faults(controllers);
        guards
    }

    /// Does what `collect` does, and answers besides with the record of
    /// every pearl that refused, under its identifier and in the order in
    /// which the pearls were tried.
    pub fn collect_with_faults<T>(&self, controllers: &mut ControllerStorage<T>) -> (gathered: (
        Vec<PearlRef<T>>,
        Vec<PearlFault>,
    )) where T: TaroRender
        requires
            self.well_formed(),
            old(controllers).well_formed(),
        ensures
            final(controllers).well_formed(),
            final(controllers)@ == collected(group_of(self@, T::kind()), old(controllers)@).cells,
            gathered.0@.len() == collected(
                group_of(self@, T::kind()),
                old(controllers)@,
            ).ids.len(),
            forall|at: int|
                0 <= at < gathered.0@.len() ==> (#[trigger] gathered.0@[at]).ident()@ == collected(
                    group_of(self@, T::kind()),
                    old(controllers)@,
                ).ids[at],
            gathered.1@ == collected(group_of(self@, T::kind()), old(controllers)@).faults,
    {
        let mut faults: Vec<PearlFault> = Vec::new();
        let mut guards: Vec<PearlRef<T>> = Vec::new();
        let kind: u64 = T::type_key();
        match key_index_get(&self.kinds, kind) {
            None => {},
            Some(group_at) => {
                let ghost ids = group_of(self@, T::kind());
                let n: usize = ordered_len(&self.groups[group_at]);
                let mut at: usize = 0;
                while at < n
                    invariant
                        at <= n,
                        group_at < self.groups@.len(),
                        ids == crate::collections::ordered_ids(self.groups@[group_at as int]),
                        n == ids.len(),
                        controllers.well_formed(),
                        controllers@ == collected(ids.take(at as int), old(controllers)@).cells,
                        guards@.len() == collected(
                            ids.take(at as int),
                            old(controllers)@,
                        ).ids.len(),
                        forall|i: int|
                            0 <= i < guards@.len() ==> (#[trigger] guards@[i]).ident()@
                                == collected(ids.take(at as int), old(controllers)@).ids[i],
                        faults@ == collected(ids.take(at as int), old(controllers)@).faults,
                    decreases n - at,
                {
                    let raw: u64 = match ordered_get_index(&self.groups[group_at], at) {
                        Some(raw) => raw,
                        None => 0,
                    };
                    let pearl: Pearl<T> = Pearl::from_id(PearlId::from_raw(raw));
                    proof {
                        let done = ids.take(at as int + 1);
                        assert(done.drop_last() =~= ids.take(at as int));
                    }
                    match pearl.data(controllers) {
                        Ok(guard) => {
                            guards.push(guard);
                        },
                        Err(error) => {
                            faults.push(
                                PearlFault { id: *pearl.id(), error: PearlError::Alias(error) },
                            );
                        },
                    }
                    at = at + 1;
                }
                proof {
                    assert(ids.take(n as int) =~= ids);
                }
            },
        }
        (guards, faults)
    }

    /// Tries a write borrow in `controllers` on every pearl of the kind `T`,
    /// in the order in which they were added, and answers with the guards
    /// that went out, each with the state of its pearl. A pearl that refuses
    /// is left out; nothing is gathered where there is no group of the kind.
    pub fn collect_mut<T>(&self, controllers: &mut ControllerStorage<T>) -> (guards: Vec<
        PearlRefMut<T>,
    >) where T: TaroRender
        requires
            self.well_formed(),
            old(controllers).well_formed(),
        ensures
            final(controllers).well_formed(),
            final(controllers)@ == collected_mut(
                group_of(self@, T::kind()),
                old(controllers)@,
            ).cells,
            guards@.len() == collected_mut(
                group_of(self@, T::kind()),
                old(controllers)@,
            ).taken.len(),
            forall|at: int|
                0 <= at < guards@.len() ==> ((#[trigger] guards@[at]).ident()@, guards@[at].state())
                    == collected_mut(group_of(self@, T::kind()), old(controllers)@).taken[at],
    {
        let (guards, _) = self.collect_mut_with_faults(controllers);
        guards
    }

    /// Does what `collect_mut` does, and answers besides with the record of
    /// every pearl that refused, under its identifier and in the order in
    /// which the pearls were tried.
    pub fn collect_mut_with_faults<T>(&self, controllers: &mut ControllerStorage<T>) -> (gathered: (
        Vec<PearlRefMut<T>>,
        Vec<PearlFault>,
    )) where T: TaroRender
        requires
            self.well_formed(),
            old(controllers).well_formed(),
        ensures
            final(controllers).well_formed(),
            final(controllers)@ == collected_mut(
                group_of(self@, T::kind()),
                old(controllers)@,
            ).cells,
            gathered.0@.len() == collected_mut(
                group_of(self@, T::kind()),
                old(controllers)@,
            ).taken.len(),
            forall|at: int|
                0 <= at < gathered.0@.len() ==> (
                    (#[trigger] gathered.0@[at]).ident()@,
                    gathered.0@[at].state(),
                ) == collected_mut(group_of(self@, T::kind()), old(controllers)@).taken[at],
            gathered.1@ == collected_mut(group_of(self@, T::kind()), old(controllers)@).faults,
    {
        let mut faults: Vec<PearlFault> = Vec::new();
        let mut guards: Vec<PearlRefMut<T>> = Vec::new();
        let kind: u64 = T::type_key();
        match key_index_get(&self.kinds, kind) {
            None => {},
            Some(group_at) => {
                let ghost ids = group_of(self@, T::kind());
                let n: usize = ordered_len(&self.groups[group_at]);
                let mut at: usize = 0;
                while at < n
                    invariant
                        at <= n,
                        group_at < self.groups@.len(),
                        ids == crate::collections::ordered_ids(self.groups@[group_at as int]),
                        n == ids.len(),
                        controllers.well_formed(),
                        controllers@ == collected_mut(ids.take(at as int), old(controllers)@).cells,
                        guards@.len() == collected_mut(
                            ids.take(at as int),
                            old(controllers)@,
                        ).taken.len(),
                        forall|i: int|
                            0 <= i < guards@.len() ==> (
                                (#[trigger] guards@[i]).ident()@,
                                guards@[i].state(),
                            ) == collected_mut(ids.take(at as int), old(controllers)@).taken[i],
                        faults@ == collected_mut(ids.take(at as int), old(controllers)@).faults,
                    decreases n - at,
                {
                    let raw: u64 = match ordered_get_index(&self.groups[group_at], at) {
                        Some(raw) => raw,
                        None => 0,
                    };
                    let pearl: Pearl<T> = Pearl::from_id(PearlId::from_raw(raw));
                    proof {
                        let done = ids.take(at as int + 1);
                        assert(done.drop_last() =~= ids.take(at as int));
                    }
                    match pearl.data_mut(controllers) {
                        Ok(guard) => {
                            guards.push(guard);
                        },
                        Err(error) => {
                            faults.push(
                                PearlFault { id: *pearl.id(), error: PearlError::Alias(error) },
                            );
                        },
                    }
                    at = at + 1;
                }
                proof {
                    assert(ids.take(n as int) =~= ids);
                }
            },
        }
        (guards, faults)
    }
}

} // verus!
