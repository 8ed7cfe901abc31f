//! Synchronisation of merchant records between an importing service and a
//! calculating service: row normalisation, keyed upsert stores, event shaping,
//! the import pipeline and the receiving handler.

pub mod calculator;
pub mod event;
pub mod fee;
pub mod importer;
pub mod model;
pub mod store;
