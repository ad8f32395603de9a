//! Supervision of long-running jobs on one host, and synchronisation of a
//! workspace between a client and that host by content hashes.
//!
//! The crate holds the rules of both and nothing that touches the outside
//! world. It starts no process, opens no file and reads no clock: a caller
//! reports what it observed, and each function answers with what the record,
//! the queue or the transfer is to be. Every function states its answer as a
//! contract, and the laws that tie several functions together are proved
//! beside them.
//!
//! Jobs:
//! - [`job`] holds the record of a job and the writes that move it along.
//! - [`runner`] holds the queue, the live set and the decisions of the runner
//!   and of a stop request.
//! - [`lifecycle`] proves that times stay in order, that an ended job stays
//!   as it ended, that a stop ends every job that has not ended, and that
//!   of a stop racing an exit exactly one terminal write takes effect.
//!
//! Synchronisation:
//! - [`path`] resolves the path a request names and confines it to a root;
//!   [`containment`] proves that no request leaves the root by its text.
//! - [`exclude`] applies exclusion rules, [`hashing`] hashes content, and
//!   [`manifest`] builds the mapping from path to hash.
//! - [`sync`] names the files to transfer and places uploads, and proves
//!   that a manifest does not depend on the order of a walk.
//! - [`archive`] chooses the entries of an archive and [`pack`] packs them;
//!   [`extract`] places the entries of an archive that was received.
//!
//! Around them: [`config`] for the settings, [`listing`] for directory
//! listings, [`logs`] for the tail of a job's log, [`conda`], [`resources`]
//! and [`system_resources`] for what the host reports, [`error`] for what a
//! client is told of a failure, [`metrics`] and [`notifications`] for counts
//! and notices, and [`text`], [`number`] and [`util`] for text and numbers.

pub mod archive;
pub mod conda;
pub mod config;
pub mod containment;
pub mod error;
pub mod exclude;
pub mod extract;
pub mod hashing;
pub mod job;
pub mod lifecycle;
pub mod listing;
pub mod logs;
pub mod manifest;
pub mod metrics;
pub mod models;
pub mod notifications;
pub mod number;
pub mod pack;
pub mod path;
pub mod resources;
pub mod runner;
pub mod sync;
pub mod system_resources;
pub mod text;
pub mod util;
