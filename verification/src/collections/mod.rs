//! Collections: a generational vector, storages behind shareable handles,
//! and registries.


pub mod stable_vec;
pub mod registries;
pub mod storage;
mod swap_cell;
