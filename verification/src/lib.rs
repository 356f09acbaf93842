//! Deployment changelogs: the commits of a range, the pull requests that hold
//! them and the issues that those pull requests refer to.
//!
//! The crate holds the rules and makes no request itself. An
//! [`changelog::Aggregation`] says what is to be asked of the services next,
//! takes what came back, and moves on, until it holds the changelog or the
//! error that ended it. A collection that a service hands out in pages is
//! walked by [`api::rest::Paginated::all`], through a cursor that is given the
//! function that asks for one page.
//!
//! - [`api`]: what the services are asked and what they answer.
//! - [`changelog`]: the commits to report on, the aggregation and its outcome.
//! - [`merge`]: bringing together what the branches of a fan-out brought back.
//! - [`error`]: the reasons for which no changelog comes about.
//! - [`text`], [`time`]: the text of requests, and points in time.

pub mod api;
pub mod changelog;
pub mod error;
pub mod merge;
pub mod text;
pub mod time;
