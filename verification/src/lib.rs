//! The status of a version-controlled working tree as one line for a shell
//! prompt: the branch, the commits ahead of and behind its upstream, and
//! the numbers of staged, conflicting, modified, untracked and deleted
//! files.
//!
//! The library decides and computes; it does not run anything. A program
//! around it runs the backend's commands and hands over what they left:
//! [`invoker`] turns a finished command into a reply, [`branch`] and
//! [`counter`] turn replies into the reports of the six units of work, and
//! [`status`] assembles the reports, in whatever order they arrive, into
//! the record and its line. [`query`] holds the questions, [`lines`] and
//! [`text`] the handling of text.

pub mod branch;
pub mod counter;
pub mod invoker;
pub mod lines;
pub mod query;
pub mod status;
pub mod text;
