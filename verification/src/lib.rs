//! A listing engine for a marketplace: listings, their price conditions and the
//! lookup indices kept over them, filled from trusted approval events.

pub mod account;
pub mod error;
pub mod index;
pub mod laws;
pub mod ledger;
pub mod listing;
pub mod market;
pub mod model;
pub mod store;
pub mod text;
pub mod text_map;
pub mod text_set;
