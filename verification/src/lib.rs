//! The verified core of the `hrc` command line.
use vstd::prelude::*;

pub mod exit;
pub mod text;
pub mod decimal;
pub mod error;
pub mod time;
pub mod cli;
pub mod dispatch;
pub mod json;
pub mod entry;
pub mod repository;
pub mod progress;
pub mod source;
pub mod decide;
pub mod diagnostics;
pub mod paths;
pub mod roster;
pub mod enrol;
pub mod channel;
pub mod trusted;
pub mod inbox;
pub mod screens;
pub mod review;
pub mod audit;
pub mod receipts;
pub mod daemon;
pub mod render;
pub mod references;
pub mod publish;
pub mod compose;
pub mod panes;
pub mod herdr;
pub mod context;
pub mod history;

verus! {
} // verus!
