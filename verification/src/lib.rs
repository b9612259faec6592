//! Keeps a table of package versions, one column per tracked channel, in step
//! with freshly fetched package-index snapshots.
//!
//! A run visits every pair of architecture and repository (`channel`), finds
//! the index of the pair (`locator`), reads the packages that the index
//! describes (`descriptor`) and reconciles the channel of the pair with them
//! (`reconcile`). What a reconciliation does to the table is stated on maps
//! (`model`), proved of the table in memory (`table`) and spelled out as
//! statements for a SQL store (`statement`). `laws` holds what follows for
//! every table and every snapshot, `run` the order of a run and the decision
//! to skip a pair whose source holds nothing new.

pub mod channel;
pub mod config;
pub mod descriptor;
pub mod error;
pub mod laws;
pub mod locator;
pub mod model;
pub mod query;
pub mod reconcile;
pub mod record;
pub mod run;
pub mod statement;
pub mod table;
pub mod text;
pub mod timestamp;
