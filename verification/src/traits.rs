use vstd::prelude::*;
use crate::config::Config;

verus! {

/// A runnable subcommand of the tool, driven over a loaded configuration.
pub trait Command {
    fn run(&mut self, cfg: &mut Config);
}

} // verus!
