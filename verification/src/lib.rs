//! `co-review` — interactive, split-screen PR co-review between you and your AI
//! agent, inside [Herdr](https://herdr.dev).
//!
//! The library holds the logic of the tool, each function with a contract
//! proved by Verus:
//!
//! - [`model`] — the shared `State` and everything in it.
//! - [`store`] — where a session's state lives and what an update writes.
//! - [`pr`] — parsing pull-request references and GitHub remote URLs.
//! - [`diffview`] — parsing unified diffs and cutting the related-code views.
//! - [`git`], [`herdr`] — the exact commands handed to `git` and `herdr`, and
//!   how their answers are read.
//! - [`orchestrate`] — the decisions of `co-review start`.
//! - [`paths`] — where sessions and worktrees live, and which session a
//!   command works on.
//! - [`tui`] — the navigator's selection, input line and key map.
//! - [`protocol`] — the agent-facing prompt and protocol texts.
//! - [`cli`] — the command-line surface as plain data.
//! - [`util`], [`text`] — slugs, and the character-level text operations the
//!   parsers are built from.
pub mod cli;
pub mod diffview;
pub mod git;
pub mod herdr;
pub mod model;
pub mod orchestrate;
pub mod paths;
pub mod pr;
pub mod protocol;
pub mod store;
pub mod text;
pub mod tui;
pub mod util;
