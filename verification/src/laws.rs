//! What the operations are for, said of their inputs and results alone.

pub mod access;
pub mod gateway;
pub mod lists;
pub mod sessions;
pub mod storage;
pub mod views;
pub mod words;
