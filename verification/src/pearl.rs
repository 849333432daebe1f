use crate::resources::BobaResources;
use crate::stage::BobaStage;
use crate::storage::controller_storage::{ControllerStorage, PearlSlot};
use crate::storage::stage_storage::{StageRunner, StageStorage};
use vstd::prelude::*;

verus! {

/// The number of distinct raw identifier values.
pub open spec fn id_space() -> int {
    0x1_0000_0000_0000_0000
}

/// The raw value handed out by the `k`-th draw from a counter that stands at
/// `start`; the counter wraps at the end of the identifier space.
pub open spec fn nth_raw(start: u64, k: nat) -> u64 {
    ((start + k) % id_space()) as u64
}

/// The identity of a pearl: an opaque value that is compared, hashed and
/// copied, and never handed out twice by one counter within `id_space()`
/// draws.
#[derive(PartialEq, Eq, Structural, Hash, Clone, Copy, Debug)]
pub struct PearlId {
    _id: u64,
}

impl View for PearlId {
    type V = u64;

    closed spec fn view(&self) -> u64 {
        self._id
    }
}

/// The counter that identifiers are drawn from. Its view is the raw value of
/// the next identifier. Identifiers are unique among the pearls that were
/// wrapped with one counter: an app has one, and hands it to every wrap.
pub struct PearlIds {
    next: u64,
}

impl View for PearlIds {
    type V = u64;

    closed spec fn view(&self) -> u64 {
        self.next
    }
}

impl PearlIds {
    /// A counter that has handed out nothing yet.
    pub fn new() -> (ids: PearlIds)
        ensures
            ids@ == 0,
    {
        PearlIds { next: 0 }
    }
}

impl PearlId {
    /// The identifier with the raw value `raw`.
    pub closed spec fn of(raw: u64) -> PearlId {
        PearlId { _id: raw }
    }

    /// Draws the next identifier from `ids` and advances the counter by one,
    /// wrapping at the end of the identifier space.
    pub fn new(ids: &mut PearlIds) -> (id: PearlId)
        ensures
            id@ == nth_raw(old(ids)@, 0),
            final(ids)@ == nth_raw(old(ids)@, 1),
    {
        let raw: u64 = ids.next;
        ids.next = raw.wrapping_add(1);
        PearlId { _id: raw }
    }

    /// The identifier with the raw value `raw`.
    pub(crate) fn from_raw(raw: u64) -> (id: PearlId)
        ensures
            id == PearlId::of(raw),
            id@ == raw,
    {
        PearlId { _id: raw }
    }

    /// The raw value of this identifier.
    pub(crate) fn raw(&self) -> (raw: u64)
        ensures
            raw == self@,
    {
        self._id
    }
}

/// Why a borrow was refused.
#[derive(PartialEq, Eq, Structural, Clone, Copy, Debug)]
pub enum AliasError {
    /// The storage holds no pearl under the handle's identifier.
    Missing,
    /// Read guards are out on the pearl.
    Reading,
    /// A write guard is out on the pearl.
    Writing,
    /// The count of read guards stands at its limit.
    TooManyReaders,
}

/// A cloneable handle to one pearl of state `T`. All clones carry the same
/// identifier and reach the same state, which the storage that the pearl was
/// wrapped into owns.
pub struct Pearl<T> {
    id: PearlId,
    state: core::marker::PhantomData<T>,
}

impl<T> Pearl<T> {
    /// The identifier that this handle carries.
    pub closed spec fn ident(&self) -> PearlId {
        self.id
    }

    /// The handle that carries the identifier `id`.
    pub closed spec fn of(id: PearlId) -> Pearl<T> {
        Pearl { id, state: core::marker::PhantomData }
    }

    /// The handle for the identifier `id`.
    pub(crate) fn from_id(id: PearlId) -> (pearl: Pearl<T>)
        ensures
            pearl == Pearl::<T>::of(id),
            pearl.ident() == id,
    {
        Pearl { id, state: core::marker::PhantomData }
    }

    /// The identifier of the pearl; every clone of a handle answers the same.
    pub fn id(&self) -> (id: &PearlId)
        ensures
            *id == self.ident(),
    {
        &self.id
    }
}

impl<T> PartialEq for Pearl<T> {
    /// Handles are equal when they carry the same identifier.
    fn eq(&self, other: &Pearl<T>) -> (same: bool) {
        self.id == other.id
    }
}

impl<T> vstd::std_specs::cmp::PartialEqSpecImpl for Pearl<T> {
    open spec fn obeys_eq_spec() -> bool {
        true
    }

    open spec fn eq_spec(&self, other: &Pearl<T>) -> bool {
        self.ident() == other.ident()
    }
}

impl<T> Eq for Pearl<T> {}

impl<T> Clone for Pearl<T> {
    /// Another handle to the same pearl: no state is copied.
    fn clone(&self) -> (other: Pearl<T>)
        ensures
            other == *self,
    {
        Pearl { id: self.id, state: core::marker::PhantomData }
    }
}

/// A read guard: the token that one successful `data` call hands out. It
/// does not come back by itself: a guard that is dropped leaves its reader
/// counted for good, so give it back with `ControllerStorage::release`, or
/// read through `ControllerStorage::read_with`, which takes and gives back
/// the guard around one call.
#[must_use]
pub struct PearlRef<T> {
    id: PearlId,
    state: core::marker::PhantomData<T>,
}

impl<T> PearlRef<T> {
    /// The identifier of the pearl that the guard is out on.
    pub closed spec fn ident(&self) -> PearlId {
        self.id
    }

    /// The read guard on the pearl under `id`.
    pub(crate) fn from_id(id: PearlId) -> (guard: PearlRef<T>)
        ensures
            guard.ident() == id,
    {
        PearlRef { id, state: core::marker::PhantomData }
    }

    /// The identifier of the pearl that the guard is out on.
    pub fn id(&self) -> (id: &PearlId)
        ensures
            *id == self.ident(),
    {
        &self.id
    }
}

/// A write guard: it holds the pearl's state while it is out, and gives it
/// back to the storage on release. It does not come back by itself: a guard
/// that is dropped takes the state with it and leaves the pearl borrowed for
/// good, so give it back with `ControllerStorage::release_mut`, or write
/// through `ControllerStorage::write_with`, which takes and gives back the
/// guard around one call.
#[must_use]
pub struct PearlRefMut<T> {
    id: PearlId,
    value: T,
}

impl<T> PearlRefMut<T> {
    /// The identifier of the pearl that the guard is out on.
    pub closed spec fn ident(&self) -> PearlId {
        self.id
    }

    /// The state that the guard holds.
    pub closed spec fn state(&self) -> T {
        self.value
    }

    /// The write guard on the pearl under `id` that holds `value`.
    pub(crate) fn from_parts(id: PearlId, value: T) -> (guard: PearlRefMut<T>)
        ensures
            guard.ident() == id,
            guard.state() == value,
    {
        PearlRefMut { id, value }
    }

    /// Takes the guard apart into the identifier and the state it holds.
    pub(crate) fn into_parts(self) -> (parts: (PearlId, T))
        ensures
            parts.0 == self.ident(),
            parts.1 == self.state(),
    {
        (self.id, self.value)
    }

    /// The identifier of the pearl that the guard is out on.
    pub fn id(&self) -> (id: &PearlId)
        ensures
            *id == self.ident(),
    {
        &self.id
    }

    /// The state of the pearl, to read.
    pub fn value(&self) -> (value: &T)
        ensures
            *value == self.state(),
    {
        &self.value
    }

    /// The state of the pearl, to change in place; the guard stays out on
    /// the same pearl.
    pub fn value_mut(&mut self) -> (value: &mut T)
        ensures
            *value == old(self).state(),
            final(self).state() == *final(value),
            final(self).ident() == old(self).ident(),
    {
        &mut self.value
    }

    /// Puts `value` in place of the state and hands the former state out.
    pub fn replace(&mut self, value: T) -> (former: T)
        ensures
            former == old(self).state(),
            final(self).state() == value,
            final(self).ident() == old(self).ident(),
    {
        let mut former = value;
        core::mem::swap(&mut self.value, &mut former);
        former
    }
}

impl<T> Pearl<T> {
    /// Tries to take a read guard on the pearl in `controllers`. It fails if
    /// the write guard is out, if `controllers` holds no such pearl, or if
    /// the count of readers stands at its limit; nothing changes then.
    pub fn data(&self, controllers: &mut ControllerStorage<T>) -> (outcome: Result<
        PearlRef<T>,
        AliasError,
    >)
        requires
            old(controllers).well_formed(),
        ensures
            final(controllers).well_formed(),
            final(controllers)@ == crate::storage::controller_storage::lent(
                old(controllers)@,
                self.ident()@,
            ),
            match outcome {
                Ok(guard) => crate::storage::controller_storage::read_refusal(
                    old(controllers)@,
                    self.ident()@,
                ) is None && guard.ident() == self.ident(),
                Err(error) => crate::storage::controller_storage::read_refusal(
                    old(controllers)@,
                    self.ident()@,
                ) == Some(error),
            },
    {
        controllers.borrow(self)
    }

    /// Tries to take the write guard on the pearl in `controllers`; the guard
    /// carries the state. It fails if any guard is out or if `controllers`
    /// holds no such pearl; nothing changes then.
    pub fn data_mut(&self, controllers: &mut ControllerStorage<T>) -> (outcome: Result<
        PearlRefMut<T>,
        AliasError,
    >)
        requires
            old(controllers).well_formed(),
        ensures
            final(controllers).well_formed(),
            final(controllers)@ == crate::storage::controller_storage::lent_mut(
                old(controllers)@,
                self.ident()@,
            ),
            match outcome {
                Ok(guard) => crate::storage::controller_storage::write_refusal(
                    old(controllers)@,
                    self.ident()@,
                ) is None && guard.ident() == self.ident() && Some(guard.state())
                    == crate::storage::controller_storage::state_of(
                    old(controllers)@,
                    self.ident()@,
                ),
                Err(error) => crate::storage::controller_storage::write_refusal(
                    old(controllers)@,
                    self.ident()@,
                ) == Some(error),
            },
    {
        controllers.borrow_mut(self)
    }
}

/// Why the update of a pearl did not go through.
#[derive(PartialEq, Eq, Debug)]
pub enum PearlError {
    /// A borrow was refused.
    Alias(AliasError),
    /// The update gave up; the message says why.
    Failed(String),
}

impl From<AliasError> for PearlError {
    fn from(error: AliasError) -> (wrapped: PearlError) {
        PearlError::Alias(error)
    }
}

impl vstd::std_specs::convert::FromSpecImpl<AliasError> for PearlError {
    open spec fn obeys_from_spec() -> bool {
        true
    }

    open spec fn from_spec(error: AliasError) -> PearlError {
        PearlError::Alias(error)
    }
}

/// What the update of a pearl answers.
pub type PearlResult = Result<(), PearlError>;

/// The record of one update that did not go through: which pearl, and why.
#[derive(PartialEq, Eq, Debug)]
pub struct PearlFault {
    pub id: PearlId,
    pub error: PearlError,
}

/// The fault that the answer `result` of the update of `id` amounts to: none
/// for success, otherwise the error under the pearl's identifier.
pub open spec fn settled(id: PearlId, result: PearlResult) -> Option<PearlFault> {
    match result {
        Ok(_) => None,
        Err(error) => Some(PearlFault { id, error }),
    }
}

/// Turns the answer of the update of `id` into the fault to report, if any.
/// A failure is recorded and goes no further.
pub fn settle(id: PearlId, result: PearlResult) -> (fault: Option<PearlFault>)
    ensures
        fault == settled(id, result),
{
    match result {
        Ok(_) => None,
        Err(error) => Some(PearlFault { id, error }),
    }
}

/// What one update leaves behind: the pearl's own state, the storage, the
/// resources, and the answer.
pub struct PearlUpdate<T, R> {
    pub state: T,
    pub cells: Map<u64, PearlSlot<T>>,
    pub resources: Map<u64, R>,
    pub result: PearlResult,
}

/// What one run of a pearl in a stage leaves behind: the storage, the
/// resources, and the fault if there was one.
pub struct PearlRun<T, R> {
    pub cells: Map<u64, PearlSlot<T>>,
    pub resources: Map<u64, R>,
    pub fault: Option<PearlFault>,
}

/// The registration capability: a kind of pearl says, once, which stages it
/// takes part in, by adding its handle to them.
pub trait PearlRegister: Sized {
    /// The kind of resource that the pearl's updates work with.
    type Resource;

    /// The pearls of each stage after `pearl` registered with `stages`.
    open spec fn registered(pearl: Pearl<Self>, stages: Seq<Seq<u64>>) -> Seq<Seq<u64>> {
        arbitrary()
    }

    /// Adds `pearl` to every stage of `storage` that it takes part in. The
    /// stages stay the stages they were.
    fn register<S: ?Sized + StageRunner<Self, Self::Resource>>(
        pearl: Pearl<Self>,
        storage: &mut StageStorage<Self, Self::Resource, S>,
    )
        requires
            old(storage).well_formed(),
        ensures
            final(storage).well_formed(),
            crate::storage::stage_storage::same_stages(
                old(storage).stage_list(),
                final(storage).stage_list(),
            ),
            final(storage)@ == Self::registered(pearl, old(storage)@),
    ;
}

/// The update capability of a kind of pearl for the stage `Stage`.
pub trait PearlStage<Stage: BobaStage<Self::Resource>>: PearlRegister {
    /// What the update of a pearl in state `self` leaves behind.
    open spec fn updated(
        self,
        data: Stage::StageData,
        pearl: Pearl<Self>,
        cells: Map<u64, PearlSlot<Self>>,
        resources: Map<u64, Self::Resource>,
    ) -> PearlUpdate<Self, Self::Resource> {
        arbitrary()
    }

    /// Updates the pearl for one tick of the stage. The pearl's own state is
    /// `self`, held by the write guard that the runner took; `pearl` is its
    /// handle, `controllers` reaches the other pearls.
    fn update(
        &mut self,
        data: &Stage::StageData,
        pearl: &Pearl<Self>,
        controllers: &mut ControllerStorage<Self>,
        resources: &mut BobaResources<Self::Resource>,
    ) -> (result: PearlResult)
        requires
            old(controllers).well_formed(),
            old(resources).well_formed(),
        ensures
            final(controllers).well_formed(),
            final(resources).well_formed(),
            *final(self) == old(self).updated(
                *data,
                *pearl,
                old(controllers)@,
                old(resources)@,
            ).state,
            final(controllers)@ == old(self).updated(
                *data,
                *pearl,
                old(controllers)@,
                old(resources)@,
            ).cells,
            final(resources)@ == old(self).updated(
                *data,
                *pearl,
                old(controllers)@,
                old(resources)@,
            ).resources,
            result == old(self).updated(*data, *pearl, old(controllers)@, old(resources)@).result,
    ;
}

/// What the run of `pearl` in a stage with the payload `data` leaves behind.
/// Where the write guard cannot be had, nothing changes and the refusal is
/// the fault. Otherwise the update works on the state with the guard out, the
/// guard comes back with the state the update left, and a failure of the
/// update is the fault.
pub open spec fn ran<Stage, T>(
    pearl: Pearl<T>,
    data: Stage::StageData,
    cells: Map<u64, PearlSlot<T>>,
    resources: Map<u64, T::Resource>,
) -> PearlRun<T, T::Resource> where T: PearlStage<Stage>, Stage: BobaStage<T::Resource> {
    let id = pearl.ident()@;
    match crate::storage::controller_storage::write_refusal(cells, id) {
        Some(error) => PearlRun {
            cells,
            resources,
            fault: Some(PearlFault { id: pearl.ident(), error: PearlError::Alias(error) }),
        },
        None => {
            let state = crate::storage::controller_storage::state_of(cells, id).unwrap();
            let step = state.updated(
                data,
                pearl,
                crate::storage::controller_storage::lent_mut(cells, id),
                resources,
            );
            PearlRun {
                cells: crate::storage::controller_storage::returned_mut(
                    step.cells,
                    id,
                    step.state,
                ),
                resources: step.resources,
                fault: settled(pearl.ident(), step.result),
            }
        },
    }
}

/// What a stage registry calls once per tick on each of its entries.
pub trait PearlRunner<Stage, T> where T: PearlRegister, Stage: BobaStage<T::Resource> {
    /// What one run of the entry leaves behind.
    open spec fn outcome(
        &self,
        data: Stage::StageData,
        cells: Map<u64, PearlSlot<T>>,
        resources: Map<u64, T::Resource>,
    ) -> PearlRun<T, T::Resource> {
        arbitrary()
    }

    /// Runs the entry for one tick and answers with the fault, if any.
    fn run(
        &mut self,
        data: &Stage::StageData,
        controllers: &mut ControllerStorage<T>,
        resources: &mut BobaResources<T::Resource>,
    ) -> (fault: Option<PearlFault>)
        requires
            old(controllers).well_formed(),
            old(resources).well_formed(),
        ensures
            final(controllers).well_formed(),
            final(resources).well_formed(),
            final(controllers)@ == old(self).outcome(
                *data,
                old(controllers)@,
                old(resources)@,
            ).cells,
            final(resources)@ == old(self).outcome(
                *data,
                old(controllers)@,
                old(resources)@,
            ).resources,
            fault == old(self).outcome(*data, old(controllers)@, old(resources)@).fault,
    ;
}

impl<Stage, Update> PearlRunner<Stage, Update> for Pearl<Update> where
    Update: PearlStage<Stage>,
    Stage: BobaStage<Update::Resource>,
 {
    /// The run of a handle is the run of its pearl.
    open spec fn outcome(
        &self,
        data: Stage::StageData,
        cells: Map<u64, PearlSlot<Update>>,
        resources: Map<u64, Update::Resource>,
    ) -> PearlRun<Update, Update::Resource> {
        ran::<Stage, Update>(*self, data, cells, resources)
    }

    /// Borrows the pearl's state for writing, runs its update and gives the
    /// guard back, whatever the update answered.
    fn run(
        &mut self,
        data: &Stage::StageData,
        controllers: &mut ControllerStorage<Update>,
        resources: &mut BobaResources<Update::Resource>,
    ) -> (fault: Option<PearlFault>)
        ensures
            *final(self) == *old(self),
    {
        match self.data_mut(controllers) {
            Err(error) => Some(PearlFault { id: *self.id(), error: PearlError::Alias(error) }),
            Ok(guard) => {
                let (id, mut state) = guard.into_parts();
                let result = state.update(data, self, controllers, resources);
                controllers.release_mut(PearlRefMut::from_parts(id, state));
                settle(id, result)
            },
        }
    }
}

/// Wrapping: a value becomes a pearl by handing its state to a storage.
pub trait AsPearl<T>: Sized where T: PearlRegister {
    /// The state that the value hands over.
    open spec fn state(self) -> T {
        arbitrary()
    }

    /// Hands `self` to `controllers` under the next identifier of `ids` and
    /// answers with the first handle to the new pearl. All wraps that draw
    /// on one counter give different identifiers, whatever storages they
    /// fill.
    fn as_pearl(self, ids: &mut PearlIds, controllers: &mut ControllerStorage<T>) -> (pearl: Pearl<
        T,
    >)
        requires
            old(controllers).well_formed(),
        ensures
            final(controllers).well_formed(),
            pearl.ident()@ == nth_raw(old(ids)@, 0),
            final(ids)@ == nth_raw(old(ids)@, 1),
            final(controllers)@ == crate::storage::controller_storage::wrapped(
                old(controllers)@,
                pearl.ident()@,
                self.state(),
            ),
    ;
}

impl<T> AsPearl<T> for T where T: PearlRegister {
    open spec fn state(self) -> T {
        self
    }

    fn as_pearl(self, ids: &mut PearlIds, controllers: &mut ControllerStorage<T>) -> (pearl: Pearl<
        T,
    >) {
        controllers.wrap(ids, self)
    }
}

/// What is written through one handle is read through every clone of it:
/// once the write guard taken through `writer` came back with `value`, a
/// read borrow through `reader`, a clone of it, is granted and gives access
/// to `value`.
pub proof fn lemma_clones_share_state<T>(
    cells: Map<u64, PearlSlot<T>>,
    writer: Pearl<T>,
    reader: Pearl<T>,
    value: T,
)
    requires
        reader == writer,
        crate::storage::controller_storage::write_refusal(cells, writer.ident()@) is None,
    ensures
        ({
            let written = crate::storage::controller_storage::returned_mut(
                crate::storage::controller_storage::lent_mut(cells, writer.ident()@),
                writer.ident()@,
                value,
            );
            let read = crate::storage::controller_storage::lent(written, reader.ident()@);
            &&& crate::storage::controller_storage::read_refusal(written, reader.ident()@) is None
            &&& crate::storage::controller_storage::read_out(read, reader.ident()@)
            &&& crate::storage::controller_storage::state_of(read, reader.ident()@) == Some(value)
        }),
{
}

/// Two handles are the same exactly when their identifiers are, and the
/// handle made for an identifier carries it.
pub proof fn lemma_pearl_by_ident<T>(a: Pearl<T>, b: Pearl<T>)
    ensures
        (a.ident() == b.ident()) <==> (a == b),
        Pearl::<T>::of(a.ident()) == a,
        Pearl::<T>::of(a.ident()).ident() == a.ident(),
{
}

/// The handle made for an identifier carries that identifier.
pub proof fn lemma_pearl_of_ident<T>(id: PearlId)
    ensures
        Pearl::<T>::of(id).ident() == id,
{
}

/// The identifier made of a raw value has that raw value, and no other
/// identifier has.
pub proof fn lemma_id_of_raw(raw: u64, id: PearlId)
    ensures
        PearlId::of(raw)@ == raw,
        PearlId::of(id@) == id,
{
}

/// Two identifiers are the same exactly when their raw values are.
pub proof fn lemma_id_by_view(a: PearlId, b: PearlId)
    ensures
        (a@ == b@) <==> (a == b),
{
}

/// Draws add up: the `k`-th draw from a counter that `j` draws have moved on
/// is the draw `j + k` from where the counter stood. So the identifiers of
/// all the wraps that one counter serves, into whatever storages, are its
/// draws `0`, `1`, `2` and so on.
pub proof fn lemma_draws_add_up(start: u64, j: nat, k: nat)
    ensures
        nth_raw(nth_raw(start, j), k) == nth_raw(start, j + k),
        nth_raw(start, 0) == start,
{
}

/// Any `n` consecutive draws from one counter, for `n` up to the size of the
/// identifier space, hand out pairwise distinct identifiers. Every wrap is
/// one draw, so the pearls that one counter served differ in their
/// identifiers, whatever storages they were wrapped into.
pub proof fn lemma_ids_pairwise_distinct(start: u64, n: nat, i: nat, j: nat)
    requires
        n <= id_space(),
        i < n,
        j < n,
        i != j,
    ensures
        nth_raw(start, i) != nth_raw(start, j),
{
}

} // verus!
