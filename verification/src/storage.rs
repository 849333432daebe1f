pub mod controller_storage;
pub mod pearl_storage;
pub mod stage_storage;
