//! Decision core of a release-pull-request bot.
//!
//! For each repository of a hosting organisation the engine decides whether a
//! pull request merging the development branch into the release branch already
//! exists, whether one is needed, and what to report about it.  Everything
//! here is pure decision logic over plain values: response headers arrive as
//! strings, response bodies arrive already decoded, and the caller performs
//! the actual network traffic between the steps.

pub mod driver;
pub mod github;
pub mod headers;
pub mod links;
pub mod lister;
pub mod orgs;
pub mod strutil;
pub mod urls;
