//! The ownership and update-dispatch core of a small entity/component runtime.
//!
//! Every pearl is wrapped under an identifier drawn from a [`PearlIds`]
//! counter. The counter is handed to each wrap, so that all the pearls that
//! one counter served, in whatever storages, differ in their identifiers; an
//! app owns one counter for all its wraps.
//!
//! Units of behaviour ("pearls") keep their state in a [`ControllerStorage`],
//! which hands out cloneable [`Pearl`] handles and guards every access with a
//! borrow state checked at run time: one writer or any number of readers, and
//! an error, never a panic, for a borrow that does not fit. Guards are values;
//! a guard is given back to the storage by `release` or `release_mut`, and
//! `read_with` and `write_with` take and give back a guard around one call.
//!
//! Pearls are registered by identifier into stages. A [`PearlStorage`] is the
//! registry of one stage; it runs its pearls in the order in which they were
//! added and records, without stopping, the pearls that could not be borrowed
//! or whose update failed. A [`BobaApp`] owns the storage, the
//! [`BobaResources`] and the stages, and walks the stages in order once per
//! tick. [`TaroRenderPearls`] groups live pearls by kind for whoever needs all
//! pearls of one kind at once.
//!
//! Where a kind of value has to be told apart at run time (a resource, a kind
//! of pearl in a group) it is named by a `u64` key that the caller chooses.

pub mod app;
pub mod collections;
pub mod keyed;
pub mod pearl;
pub mod render_pearls;
pub mod resources;
pub mod stage;
pub mod storage;

pub use app::BobaApp;
pub use pearl::{
    settle, AliasError, AsPearl, Pearl, PearlError, PearlFault, PearlId, PearlIds, PearlRef,
    PearlRefMut, PearlRegister, PearlResult, PearlRunner, PearlStage,
};
pub use render_pearls::{TaroRender, TaroRenderPearls};
pub use resources::BobaResources;
pub use stage::BobaStage;
pub use storage::controller_storage::{ControllerStorage, PearlSlot};
pub use storage::pearl_storage::PearlStorage;
pub use storage::stage_storage::{StageRunner, StageStorage};
