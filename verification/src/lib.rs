//! Verified core of the zoid terminal agent: the decisions and data
//! transformations behind its terminal UI, agent loop and installers.
//!
//! - `projection`: the conversation projection kept up to date one event at
//!   a time, and what a full rebuild of it reads from the log.
//! - `wake`: scheduled wake-ups: validation, the pending set, firing.
//! - `picker`, `body_cache`, `scrollbar`, `click`: the session picker, when
//!   the rendered conversation can be reused, and clicks on the scrollbar
//!   and in the conversation.
//! - `config`, `onboarding`, `model_picker`: config rows and their writes,
//!   the environment layer, provider selection, the first-run wizard, and
//!   live model lists.
//! - `mode_wizard`, `plugin`, `catalog`: importing modes from upstream
//!   repositories, which plugin install effects are accepted, install reports, and the catalog.
//! - `submit`: what Enter in the message box does.
//! - `obs`: observability aggregates.
//! - `turn`: per-turn settings: the prompt's context-budget note, the
//!   working directory and the subagent timeouts.
//! - `paths`, `git`, `worktree`, `fmt`, `ids`, `json`, `text`: on-disk
//!   locations, git output, worktree guards, user-facing strings, session
//!   ids, JSON values and text helpers.

pub mod body_cache;
pub mod catalog;
pub mod click;
pub mod config;
pub mod fmt;
pub mod git;
pub mod ids;
pub mod json;
pub mod mode_wizard;
pub mod model_picker;
pub mod obs;
pub mod onboarding;
pub mod paths;
pub mod picker;
pub mod plugin;
pub mod projection;
pub mod scrollbar;
pub mod submit;
pub mod text;
pub mod turn;
pub mod wake;
pub mod worktree;
