use crate::keyed::Keyed;
use crate::pearl::{AliasError, Pearl, PearlId, PearlIds, PearlRef, PearlRefMut};
use vstd::prelude::*;

verus! {

/// One pearl as its storage keeps it: the state together with what is known
/// of the guards that are out on it.
pub enum PearlSlot<T> {
    /// No guard is out.
    Free(T),
    /// This many read guards are out, and no write guard.
    Reading(usize, T),
    /// The write guard is out, and it holds the state.
    Writing,
    /// The pearl was taken out of the storage.
    Dropped,
}

/// A slot is coherent when its count of readers, if it has one, is not zero:
/// a pearl that nobody reads is free.
pub open spec fn slot_ok<T>(slot: PearlSlot<T>) -> bool {
    slot is Reading ==> slot->Reading_0 > 0
}

/// Every slot of `cells` is coherent.
pub open spec fn cells_ok<T>(cells: Map<u64, PearlSlot<T>>) -> bool {
    forall|id: u64| cells.contains_key(id) ==> slot_ok(#[trigger] cells[id])
}

/// Whether `cells` holds a pearl under the raw identifier `id`: one was
/// wrapped into it under `id` and has not been taken out since.
pub open spec fn holds<T>(cells: Map<u64, PearlSlot<T>>, id: u64) -> bool {
    cells.contains_key(id) && !(cells[id] is Dropped)
}

/// The slot of `id` in `cells`.
pub open spec fn slot_of<T>(cells: Map<u64, PearlSlot<T>>, id: u64) -> PearlSlot<T> {
    cells[id]
}

/// Why a read borrow of `id` is refused in `cells`, if it is.
pub open spec fn read_refusal<T>(cells: Map<u64, PearlSlot<T>>, id: u64) -> Option<AliasError> {
    if !holds(cells, id) {
        Some(AliasError::Missing)
    } else {
        match slot_of(cells, id) {
            PearlSlot::Free(_) => None,
            PearlSlot::Reading(n, _) => if n == usize::MAX {
                Some(AliasError::TooManyReaders)
            } else {
                None
            },
            PearlSlot::Writing => Some(AliasError::Writing),
            PearlSlot::Dropped => Some(AliasError::Missing),
        }
    }
}

/// Why a write borrow of `id` is refused in `cells`, if it is.
pub open spec fn write_refusal<T>(cells: Map<u64, PearlSlot<T>>, id: u64) -> Option<AliasError> {
    if !holds(cells, id) {
        Some(AliasError::Missing)
    } else {
        match slot_of(cells, id) {
            PearlSlot::Free(_) => None,
            PearlSlot::Reading(_, _) => Some(AliasError::Reading),
            PearlSlot::Writing => Some(AliasError::Writing),
            PearlSlot::Dropped => Some(AliasError::Missing),
        }
    }
}

/// A slot after one more read guard went out on it.
pub open spec fn one_more_reader<T>(slot: PearlSlot<T>) -> PearlSlot<T> {
    match slot {
        PearlSlot::Free(value) => PearlSlot::Reading(1, value),
        PearlSlot::Reading(n, value) => PearlSlot::Reading((n + 1) as usize, value),
        other => other,
    }
}

/// A slot after one read guard came back to it.
pub open spec fn one_reader_less<T>(slot: PearlSlot<T>) -> PearlSlot<T> {
    match slot {
        PearlSlot::Reading(n, value) => if n <= 1 {
            PearlSlot::Free(value)
        } else {
            PearlSlot::Reading((n - 1) as usize, value)
        },
        other => other,
    }
}

/// The state that can be read in `cells` under `id`: none where the storage
/// holds no such pearl, or where the write guard holds the state.
pub open spec fn state_of<T>(cells: Map<u64, PearlSlot<T>>, id: u64) -> Option<T> {
    if !holds(cells, id) {
        None
    } else {
        match slot_of(cells, id) {
            PearlSlot::Free(value) => Some(value),
            PearlSlot::Reading(_, value) => Some(value),
            PearlSlot::Writing => None,
            PearlSlot::Dropped => None,
        }
    }
}

/// `cells` after `value` was wrapped into it under `id`.
pub open spec fn wrapped<T>(cells: Map<u64, PearlSlot<T>>, id: u64, value: T) -> Map<
    u64,
    PearlSlot<T>,
> {
    cells.insert(id, PearlSlot::Free(value))
}

/// `cells` after a pearl was taken out under `id`; unchanged where a write
/// borrow is refused.
pub open spec fn taken<T>(cells: Map<u64, PearlSlot<T>>, id: u64) -> Map<u64, PearlSlot<T>> {
    if write_refusal(cells, id) is None {
        cells.insert(id, PearlSlot::Dropped)
    } else {
        cells
    }
}

/// `cells` after a read borrow of `id`; unchanged where it is refused.
pub open spec fn lent<T>(cells: Map<u64, PearlSlot<T>>, id: u64) -> Map<u64, PearlSlot<T>> {
    if read_refusal(cells, id) is None {
        cells.insert(id, one_more_reader(slot_of(cells, id)))
    } else {
        cells
    }
}

/// `cells` after a write borrow of `id`, the state having left with the
/// guard; unchanged where it is refused.
pub open spec fn lent_mut<T>(cells: Map<u64, PearlSlot<T>>, id: u64) -> Map<u64, PearlSlot<T>> {
    if write_refusal(cells, id) is None {
        cells.insert(id, PearlSlot::Writing)
    } else {
        cells
    }
}

/// Whether read guards are out on `id` in `cells`.
pub open spec fn read_out<T>(cells: Map<u64, PearlSlot<T>>, id: u64) -> bool {
    holds(cells, id) && slot_of(cells, id) is Reading
}

/// Whether the write guard is out on `id` in `cells`.
pub open spec fn write_out<T>(cells: Map<u64, PearlSlot<T>>, id: u64) -> bool {
    holds(cells, id) && slot_of(cells, id) is Writing
}

/// `cells` after a read guard on `id` came back; unchanged where none was
/// out.
pub open spec fn returned<T>(cells: Map<u64, PearlSlot<T>>, id: u64) -> Map<u64, PearlSlot<T>> {
    if read_out(cells, id) {
        cells.insert(id, one_reader_less(slot_of(cells, id)))
    } else {
        cells
    }
}

/// `cells` after the write guard on `id` came back with `value`; unchanged
/// where none was out.
pub open spec fn returned_mut<T>(cells: Map<u64, PearlSlot<T>>, id: u64, value: T) -> Map<
    u64,
    PearlSlot<T>,
> {
    if write_out(cells, id) {
        cells.insert(id, PearlSlot::Free(value))
    } else {
        cells
    }
}

/// While the write guard is out on a pearl, every further borrow of the
/// pearl, to read or to write, is refused as an aliasing error.
pub proof fn lemma_write_guard_excludes<T>(cells: Map<u64, PearlSlot<T>>, id: u64)
    requires
        write_out(cells, id),
    ensures
        read_refusal(cells, id) == Some(AliasError::Writing),
        write_refusal(cells, id) == Some(AliasError::Writing),
        lent(cells, id) == cells,
        lent_mut(cells, id) == cells,
{
}

/// A write borrow that is granted puts the write guard out, and there it
/// stays until that guard comes back: borrows, read guards that come back,
/// guards that come back to other pearls, pearls taken out and pearls
/// wrapped under other identifiers do not end it.
pub proof fn lemma_write_guard_stays_out<T>(
    cells: Map<u64, PearlSlot<T>>,
    id: u64,
    other: u64,
    value: T,
)
    ensures
        write_refusal(cells, id) is None ==> write_out(lent_mut(cells, id), id),
        write_out(cells, id) ==> write_out(lent(cells, other), id),
        write_out(cells, id) ==> write_out(lent_mut(cells, other), id),
        write_out(cells, id) ==> write_out(returned(cells, other), id),
        write_out(cells, id) && other != id ==> write_out(returned_mut(cells, other, value), id),
        write_out(cells, id) ==> write_out(taken(cells, other), id),
        write_out(cells, id) && other != id ==> write_out(wrapped(cells, other, value), id),
{
}

/// A guard on a pearl that a storage does not hold changes nothing there:
/// the guards of one storage free no pearl of another, as long as the
/// pearls of both were wrapped with identifiers of one counter.
pub proof fn lemma_foreign_guards_change_nothing<T>(
    cells: Map<u64, PearlSlot<T>>,
    id: u64,
    value: T,
)
    requires
        !holds(cells, id),
    ensures
        returned(cells, id) == cells,
        returned_mut(cells, id, value) == cells,
        lent(cells, id) == cells,
        lent_mut(cells, id) == cells,
        taken(cells, id) == cells,
        read_refusal(cells, id) == Some(AliasError::Missing),
        write_refusal(cells, id) == Some(AliasError::Missing),
{
}

/// A storage whose pearls were all wrapped with one counter is never handed
/// an identifier that it holds: where every identifier in `cells` is one of
/// the first `n` draws of a counter that stood at `start`, the next draw is
/// not in `cells`, so a wrap takes the place of no pearl.
pub proof fn lemma_next_draw_is_new<T>(cells: Map<u64, PearlSlot<T>>, start: u64, n: nat)
    requires
        n < crate::pearl::id_space(),
        forall|id: u64| #[trigger]
            cells.contains_key(id) ==> exists|k: nat|
                k < n && id == #[trigger] crate::pearl::nth_raw(start, k),
    ensures
        !cells.contains_key(crate::pearl::nth_raw(start, n)),
{
    let next = crate::pearl::nth_raw(start, n);
    if cells.contains_key(next) {
        let k = choose|k: nat| k < n && next == #[trigger] crate::pearl::nth_raw(start, k);
        crate::pearl::lemma_ids_pairwise_distinct(start, n + 1, k, n);
    }
}

/// While read guards are out on a pearl, a write borrow of it is refused,
/// and further read borrows are granted up to the limit of the count.
pub proof fn lemma_read_guards_exclude_writer<T>(cells: Map<u64, PearlSlot<T>>, id: u64)
    requires
        read_out(cells, id),
    ensures
        write_refusal(cells, id) == Some(AliasError::Reading),
        read_refusal(cells, id) is None || read_refusal(cells, id) == Some(
            AliasError::TooManyReaders,
        ),
{
}

/// Once a pearl was taken out, every borrow through a handle to it is
/// refused as missing, and so it stays whatever is borrowed, returned or
/// taken out afterwards, and whatever is wrapped under other identifiers.
pub proof fn lemma_taken_pearl_stays_missing<T>(
    cells: Map<u64, PearlSlot<T>>,
    id: u64,
    other: u64,
    value: T,
)
    ensures
        write_refusal(cells, id) is None ==> !holds(taken(cells, id), id),
        !holds(cells, id) ==> {
            &&& read_refusal(cells, id) == Some(AliasError::Missing)
            &&& write_refusal(cells, id) == Some(AliasError::Missing)
            &&& !holds(lent(cells, other), id)
            &&& !holds(lent_mut(cells, other), id)
            &&& !holds(returned(cells, other), id)
            &&& !holds(returned_mut(cells, other, value), id)
            &&& !holds(taken(cells, other), id)
            &&& (other != id ==> !holds(wrapped(cells, other, value), id))
        },
{
}

/// A guard that comes back undoes its borrow: after a read borrow that was
/// granted and the return of its guard the storage stands as before; after
/// a write borrow that was granted and the return of the guard with the
/// state it carried, likewise.
pub proof fn lemma_return_undoes_borrow<T>(cells: Map<u64, PearlSlot<T>>, id: u64)
    requires
        cells_ok(cells),
    ensures
        read_refusal(cells, id) is None ==> returned(lent(cells, id), id) =~= cells,
        write_refusal(cells, id) is None ==> returned_mut(
            lent_mut(cells, id),
            id,
            state_of(cells, id).unwrap(),
        ) =~= cells,
{
}

/// Borrows, returns, taking out and wrapping keep the slots coherent.
pub proof fn lemma_cells_stay_ok<T>(cells: Map<u64, PearlSlot<T>>, id: u64, value: T)
    requires
        cells_ok(cells),
    ensures
        cells_ok(lent(cells, id)),
        cells_ok(lent_mut(cells, id)),
        cells_ok(returned(cells, id)),
        cells_ok(returned_mut(cells, id, value)),
        cells_ok(taken(cells, id)),
        cells_ok(wrapped(cells, id, value)),
{
}

/// The storage that owns the state of every pearl wrapped into it, with the
/// borrow state of each. Its view maps the raw identifier of each pearl to
/// its slot. The identifiers come from a counter that the caller hands to
/// `wrap`; storages that are handed one counter share no identifier.
pub struct ControllerStorage<T> {
    slots: Keyed<PearlSlot<T>>,
}

impl<T> View for ControllerStorage<T> {
    type V = Map<u64, PearlSlot<T>>;

    closed spec fn view(&self) -> Map<u64, PearlSlot<T>> {
        self.slots@
    }
}

impl<T> ControllerStorage<T> {
    /// What every storage keeps: its slots are coherent, and stand in a
    /// store that is well formed.
    pub closed spec fn well_formed(&self) -> bool {
        &&& self.slots.well_formed()
        &&& cells_ok(self.slots@)
    }

    /// The slots of a well-formed storage are coherent.
    pub proof fn lemma_coherent(self)
        requires
            self.well_formed(),
        ensures
            cells_ok(self@),
    {
    }

    /// A storage without pearls.
    pub fn new() -> (storage: ControllerStorage<T>)
        ensures
            storage.well_formed(),
            storage@ == Map::<u64, PearlSlot<T>>::empty(),
    {
        ControllerStorage { slots: Keyed::new() }
    }

    /// Takes ownership of `value` under the next identifier of `ids` and
    /// hands out the first handle to it. Should the storage hold a pearl
    /// under that identifier, which one counter does not bring about before
    /// it has wrapped round, the new pearl takes its place.
    pub fn wrap(&mut self, ids: &mut PearlIds, value: T) -> (pearl: Pearl<T>)
        requires
            old(self).well_formed(),
        ensures
            final(self).well_formed(),
            pearl.ident()@ == crate::pearl::nth_raw(old(ids)@, 0),
            final(ids)@ == crate::pearl::nth_raw(old(ids)@, 1),
            final(self)@ == wrapped(old(self)@, pearl.ident()@, value),
    {
        let id = PearlId::new(ids);
        let _ = self.slots.insert(id.raw(), PearlSlot::Free(value));
        Pearl::from_id(id)
    }

    /// Whether this storage holds the pearl that `pearl` names.
    pub fn contains(&self, pearl: &Pearl<T>) -> (held: bool)
        requires
            self.well_formed(),
        ensures
            held == holds(self@, pearl.ident()@),
    {
        match self.slots.get(pearl.id().raw()) {
            None => false,
            Some(PearlSlot::Dropped) => false,
            Some(_) => true,
        }
    }

    /// Tries to take a read guard on `pearl`. It is refused while the write
    /// guard is out, where the storage holds no such pearl, and where the
    /// count of readers could not grow.
    pub fn borrow(&mut self, pearl: &Pearl<T>) -> (outcome: Result<PearlRef<T>, AliasError>)
        requires
            old(self).well_formed(),
        ensures
            final(self).well_formed(),
            final(self)@ == lent(old(self)@, pearl.ident()@),
            match outcome {
                Ok(guard) => read_refusal(old(self)@, pearl.ident()@) is None && guard.ident()
                    == pearl.ident(),
                Err(error) => read_refusal(old(self)@, pearl.ident()@) == Some(error),
            },
    {
        let raw: u64 = pearl.id().raw();
        let outcome = match self.slots.get_mut(raw) {
            None => Err(AliasError::Missing),
            Some(slot) => {
                let mut held = PearlSlot::Writing;
                core::mem::swap(slot, &mut held);
                match held {
                    PearlSlot::Free(value) => {
                        *slot = PearlSlot::Reading(1, value);
                        Ok(PearlRef::from_id(*pearl.id()))
                    },
                    PearlSlot::Reading(n, value) => {
                        if n == usize::MAX {
                            *slot = PearlSlot::Reading(n, value);
                            Err(AliasError::TooManyReaders)
                        } else {
                            *slot = PearlSlot::Reading(n + 1, value);
                            Ok(PearlRef::from_id(*pearl.id()))
                        }
                    },
                    PearlSlot::Writing => Err(AliasError::Writing),
                    PearlSlot::Dropped => {
                        *slot = PearlSlot::Dropped;
                        Err(AliasError::Missing)
                    },
                }
            },
        };
        assert(self@ =~= lent(old(self)@, pearl.ident()@));
        outcome
    }

    /// Tries to take the write guard on `pearl`, which carries the state away
    /// with it. It is refused while any guard is out, and where the storage
    /// holds no such pearl.
    pub fn borrow_mut(&mut self, pearl: &Pearl<T>) -> (outcome: Result<PearlRefMut<T>, AliasError>)
        requires
            old(self).well_formed(),
        ensures
            final(self).well_formed(),
            final(self)@ == lent_mut(old(self)@, pearl.ident()@),
            match outcome {
                Ok(guard) => write_refusal(old(self)@, pearl.ident()@) is None && guard.ident()
                    == pearl.ident() && Some(guard.state()) == state_of(
                    old(self)@,
                    pearl.ident()@,
                ),
                Err(error) => write_refusal(old(self)@, pearl.ident()@) == Some(error),
            },
    {
        let raw: u64 = pearl.id().raw();
        let outcome = match self.slots.get_mut(raw) {
            None => Err(AliasError::Missing),
            Some(slot) => {
                let mut held = PearlSlot::Writing;
                core::mem::swap(slot, &mut held);
                match held {
                    PearlSlot::Free(value) => Ok(PearlRefMut::from_parts(*pearl.id(), value)),
                    PearlSlot::Reading(n, value) => {
                        *slot = PearlSlot::Reading(n, value);
                        Err(AliasError::Reading)
                    },
                    PearlSlot::Writing => Err(AliasError::Writing),
                    PearlSlot::Dropped => {
                        *slot = PearlSlot::Dropped;
                        Err(AliasError::Missing)
                    },
                }
            },
        };
        assert(self@ =~= lent_mut(old(self)@, pearl.ident()@));
        outcome
    }

    /// Reads the pearl's state under a read guard that is out for the length
    /// of the call only: `reader` is handed the state, and the guard is back
    /// when the call returns. Where the read borrow is refused, `reader` is
    /// not called.
    pub fn read_with<F, A>(&mut self, pearl: &Pearl<T>, reader: F) -> (outcome: Result<
        A,
        AliasError,
    >) where F: FnOnce(&T) -> A
        requires
            old(self).well_formed(),
            read_refusal(old(self)@, pearl.ident()@) is None ==> reader.requires(
                (&state_of(old(self)@, pearl.ident()@).unwrap(),),
            ),
        ensures
            final(self).well_formed(),
            final(self)@ == old(self)@,
            match outcome {
                Ok(answer) => read_refusal(old(self)@, pearl.ident()@) is None && reader.ensures(
                    (&state_of(old(self)@, pearl.ident()@).unwrap(),),
                    answer,
                ),
                Err(error) => read_refusal(old(self)@, pearl.ident()@) == Some(error),
            },
    {
        match self.borrow(pearl) {
            Err(error) => Err(error),
            Ok(guard) => {
                let answer = match self.read(&guard) {
                    Some(state) => Ok(reader(state)),
                    None => Err(AliasError::Missing),
                };
                self.release(guard);
                proof {
                    lemma_return_undoes_borrow(old(self)@, pearl.ident()@);
                }
                answer
            },
        }
    }

    /// Changes the pearl's state under the write guard, which is out for
    /// the length of the call only: `writer` is handed the state and answers
    /// with the state to leave, and the guard is back when the call returns.
    /// Where the write borrow is refused, `writer` is not called.
    pub fn write_with<F>(&mut self, pearl: &Pearl<T>, writer: F) -> (outcome: Result<
        (),
        AliasError,
    >) where F: FnOnce(T) -> T
        requires
            old(self).well_formed(),
            write_refusal(old(self)@, pearl.ident()@) is None ==> writer.requires(
                (state_of(old(self)@, pearl.ident()@).unwrap(),),
            ),
        ensures
            final(self).well_formed(),
            match outcome {
                Ok(_) => write_refusal(old(self)@, pearl.ident()@) is None && state_of(
                    final(self)@,
                    pearl.ident()@,
                ) is Some && writer.ensures(
                    (state_of(old(self)@, pearl.ident()@).unwrap(),),
                    state_of(final(self)@, pearl.ident()@).unwrap(),
                ) && final(self)@ == old(self)@.insert(
                    pearl.ident()@,
                    PearlSlot::Free(state_of(final(self)@, pearl.ident()@).unwrap()),
                ),
                Err(error) => write_refusal(old(self)@, pearl.ident()@) == Some(error)
                    && final(self)@ == old(self)@,
            },
    {
        match self.borrow_mut(pearl) {
            Err(error) => Err(error),
            Ok(guard) => {
                let (id, state) = guard.into_parts();
                let state = writer(state);
                self.release_mut(PearlRefMut::from_parts(id, state));
                assert(self@ =~= old(self)@.insert(pearl.ident()@, PearlSlot::Free(state)));
                Ok(())
            },
        }
    }

    /// Takes the pearl that `pearl` names out of the storage and hands its
    /// state out. It is refused as a write borrow is: while any guard is
    /// out, and where the storage holds no such pearl. Afterwards every
    /// handle to the pearl dangles: a borrow through it finds the pearl
    /// missing.
    pub fn take(&mut self, pearl: &Pearl<T>) -> (outcome: Result<T, AliasError>)
        requires
            old(self).well_formed(),
        ensures
            final(self).well_formed(),
            final(self)@ == taken(old(self)@, pearl.ident()@),
            match outcome {
                Ok(state) => write_refusal(old(self)@, pearl.ident()@) is None && Some(state)
                    == state_of(old(self)@, pearl.ident()@),
                Err(error) => write_refusal(old(self)@, pearl.ident()@) == Some(error),
            },
    {
        let raw: u64 = pearl.id().raw();
        let outcome = match self.slots.get_mut(raw) {
            None => Err(AliasError::Missing),
            Some(slot) => {
                let mut held = PearlSlot::Dropped;
                core::mem::swap(slot, &mut held);
                match held {
                    PearlSlot::Free(value) => Ok(value),
                    PearlSlot::Reading(n, value) => {
                        *slot = PearlSlot::Reading(n, value);
                        Err(AliasError::Reading)
                    },
                    PearlSlot::Writing => {
                        *slot = PearlSlot::Writing;
                        Err(AliasError::Writing)
                    },
                    PearlSlot::Dropped => Err(AliasError::Missing),
                }
            },
        };
        assert(self@ =~= taken(old(self)@, pearl.ident()@));
        outcome
    }

    /// The state that a read guard gives access to: the state of its pearl
    /// while read guards are out on it in this storage, nothing otherwise.
    pub fn read(&self, guard: &PearlRef<T>) -> (state: Option<&T>)
        requires
            self.well_formed(),
        ensures
            match state {
                Some(value) => read_out(self@, guard.ident()@) && state_of(self@, guard.ident()@)
                    == Some(*value),
                None => !read_out(self@, guard.ident()@),
            },
    {
        match self.slots.get(guard.id().raw()) {
            Some(PearlSlot::Reading(_, value)) => Some(value),
            _ => None,
        }
    }

    /// Takes a read guard back: one reader less on its pearl, which is free
    /// again when the last one came back. Nothing changes where no read guard
    /// is out on the pearl.
    pub fn release(&mut self, guard: PearlRef<T>)
        requires
            old(self).well_formed(),
        ensures
            final(self).well_formed(),
            final(self)@ == returned(old(self)@, guard.ident()@),
    {
        let raw: u64 = guard.id().raw();
        match self.slots.get_mut(raw) {
            None => {},
            Some(slot) => {
                let mut held = PearlSlot::Writing;
                core::mem::swap(slot, &mut held);
                match held {
                    PearlSlot::Reading(n, value) => {
                        if n <= 1 {
                            *slot = PearlSlot::Free(value);
                        } else {
                            *slot = PearlSlot::Reading(n - 1, value);
                        }
                    },
                    PearlSlot::Free(value) => {
                        *slot = PearlSlot::Free(value);
                    },
                    PearlSlot::Writing => {},
                    PearlSlot::Dropped => {
                        *slot = PearlSlot::Dropped;
                    },
                }
            },
        }
        assert(self@ =~= returned(old(self)@, guard.ident()@));
    }

    /// Takes the write guard back and with it the state it holds: the pearl
    /// is free again. Nothing changes where the write guard is not out on the
    /// pearl in this storage.
    pub fn release_mut(&mut self, guard: PearlRefMut<T>)
        requires
            old(self).well_formed(),
        ensures
            final(self).well_formed(),
            final(self)@ == returned_mut(old(self)@, guard.ident()@, guard.state()),
    {
        let (id, value) = guard.into_parts();
        let raw: u64 = id.raw();
        match self.slots.get_mut(raw) {
            None => {},
            Some(slot) => {
                let out: bool = match &*slot {
                    PearlSlot::Writing => true,
                    _ => false,
                };
                if out {
                    *slot = PearlSlot::Free(value);
                }
            },
        }
        assert(self@ =~= returned_mut(old(self)@, guard.ident()@, guard.state()));
    }
}

} // verus!
