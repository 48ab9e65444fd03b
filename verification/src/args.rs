use vstd::prelude::*;

verus! {

/// Per-run installation options, derived from the command line.
#[derive(Debug, Clone)]
pub struct InstallArgs {
    /// Override the link if it already exists.
    pub force: bool,
    /// Create the symbolic link's parent dir if it does not exist.
    pub parent: bool,
    /// Show the install plan without running hooks or creating links.
    pub dry_run: bool,
    /// Names of the configuration items to install.
    pub items: Vec<String>,
    /// Skip pre- and post-install hooks.
    pub skip_hooks: bool,
}

pub type LinkArgs = InstallArgs;

impl Default for InstallArgs {
    /// All flags off, no items selected.
    fn default() -> (a: Self)
        ensures
            !a.force && !a.parent && !a.dry_run && !a.skip_hooks,
            a.items@ =~= Seq::<String>::empty(),
    {
        InstallArgs { force: false, parent: false, dry_run: false, items: Vec::new(), skip_hooks: false }
    }
}

} // verus!
