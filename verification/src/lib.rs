//! Datasets of tabular rows in a document store: the rules by which a batch
//! of rows finds or creates its dataset, records its import and replaces or
//! extends the rows that are there; the translation of query parameters into
//! filters and sort orders of the store; and the forms that values take when
//! they are stored and when they are shown.
//!
//! The store itself is not part of the library. A save or a query is a
//! session that says which operation it needs next and takes the store's
//! answer; `store::MemoryStore` is a store in memory that answers them, and
//! `laws` states what saves do to such a store.

pub mod criteria;
pub mod dataset;
pub mod engine;
pub mod files;
pub mod laws;
pub mod numeric;
pub mod object_id;
pub mod options;
pub mod query;
pub mod repository;
pub mod seqs;
pub mod store;
pub mod text;
pub mod timestamp;
pub mod value;
