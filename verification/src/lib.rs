//! Verified core of a manager for skhd and skhd.zig: the configuration parser,
//! variant detection and selection, the steps that read the service's status
//! and control it, and the search for configuration files.
use vstd::prelude::*;

pub mod text;
pub mod ast;
pub mod parser;
pub mod models;
pub mod settings;
pub mod detect;
pub mod service;
pub mod paths;
pub mod homebrew;
pub mod control;
pub mod status;

verus! {

} // verus!
