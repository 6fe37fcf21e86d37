//! Installs the server-side artifacts of a Modrinth modpack.
//!
//! The library holds every decision of such an install and proves what it
//! decides; reading the archive, asking the user, fetching and writing are
//! left to its user.
//!
//! - [`path`] resolves the paths that the user names and says where an
//!   artifact goes below the install root.
//! - [`document`] reads JSON, and [`manifest`] reads the entries that a
//!   manifest declares and selects those that a server needs.
//! - [`digest`] computes SHA-512 digests and compares them with declared ones.
//! - [`install`] checks downloaded bytes and plans where they are written.
//! - [`session`] sequences a run: confirmation, then one entry after the other.
//! - [`confirm`] reads the answer to a yes-or-no question.

pub mod confirm;
pub mod digest;
pub mod document;
pub mod install;
pub mod manifest;
pub mod path;
pub mod session;
pub mod text;
