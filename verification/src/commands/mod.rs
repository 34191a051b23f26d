//! The decisions behind each `gitclock` command.

pub mod commit;
pub mod pre_commit_hook;
pub mod pre_push_hook;
pub mod pre_rebase_hook;
pub mod push;
pub mod rebase;
pub mod rewrite_history;
pub mod config;
pub mod timeslot;
