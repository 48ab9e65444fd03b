use vstd::prelude::*;
use vstd::string::StringExecFns;
use crate::errors::Error;

verus! {

/// The configuration schema version this tool supports.
pub const CONFIG_VERSION: u16 = 1;

/// One named unit of installable dotfiles: the link mappings, created in
/// listed order, and the optional shell hooks run before and after linking.
/// Immutable once parsed.
#[derive(Debug, Clone)]
pub struct ConfigItem {
    /// Raw `source:destination` mapping strings, in link-creation order.
    pub mappings: Vec<String>,
    /// Shell hooks run, in order, before any link of this item is created.
    pub before: Option<Vec<String>>,
    /// Shell hooks run, in order, after all links of this item were created.
    pub after: Option<Vec<String>>,
}

/// A whole configuration: the schema version and the items, keyed by their
/// unique names. Loaded once at startup and read-only for the run.
#[derive(Debug)]
pub struct Config {
    pub version: u16,
    pub dotfiles: Vec<(String, ConfigItem)>,
}

impl Config {
    /// The names of the configured items, in declaration order.
    pub open spec fn spec_names(self) -> Seq<Seq<char>> {
        self.dotfiles@.map_values(|e: (String, ConfigItem)| e.0@)
    }

    /// Whether some item is named `name`.
    pub open spec fn spec_has_item(self, name: Seq<char>) -> bool {
        self.spec_names().contains(name)
    }

    /// Item names are unique.
    pub open spec fn wf(self) -> bool {
        forall|i: int, j: int|
            0 <= i < j < self.spec_names().len() ==> self.spec_names()[i] != self.spec_names()[j]
    }

    /// Looks an item up by name.
    pub fn find_item(&self, name: &String) -> (r: Option<&ConfigItem>)
        ensures
            r is Some <==> self.spec_has_item(name@),
            r matches Some(item) ==> exists|i: int|
                0 <= i < self.dotfiles@.len() && self.dotfiles@[i].0@ == name@
                    && *item == self.dotfiles@[i].1,
    {
        let n = self.dotfiles.len();
        for i in 0..n
            invariant
                n == self.dotfiles@.len(),
                forall|j: int| 0 <= j < i ==> self.spec_names()[j] != name@,
        {
            if self.dotfiles[i].0 == *name {
                assert(self.spec_names()[i as int] == name@);
                return Some(&self.dotfiles[i].1);
            }
            assert(self.spec_names()[i as int] == self.dotfiles@[i as int].0@);
        }
        assert(forall|j: int| 0 <= j < self.spec_names().len() ==> self.spec_names()[j] != name@);
        None
    }
}

/// Rejects a configuration whose schema version is not the supported one.
/// A mismatch is a hard startup error: nothing is installed after it.
pub fn check_version(version: u16) -> (r: Result<(), Error>)
    ensures
        version == CONFIG_VERSION <==> r is Ok,
        r matches Err(e) ==> e == Error::InvalidConfigVersion(version),
{
    if version != CONFIG_VERSION {
        Err(Error::InvalidConfigVersion(version))
    } else {
        Ok(())
    }
}

/// An invocable shell command: the program and its arguments.
#[derive(Debug)]
pub struct HookCommand {
    pub program: String,
    pub args: Vec<String>,
}

/// The shell used when the environment names none.
pub open spec fn spec_default_shell() -> Seq<char> {
    "/bin/sh"@
}

/// Turns a hook string into the command that runs it: the user's shell
/// (`/bin/sh` when `shell` is absent) invoked with `-c <hook>`, so shell
/// operators inside the hook behave as in an interactive shell.
pub fn parse_hook(value: &str, shell: Option<&str>) -> (cmd: HookCommand)
    ensures
        cmd.program@ == (match shell {
            Some(s) => s@,
            None => spec_default_shell(),
        }),
        cmd.args@.len() == 2,
        cmd.args@[0]@ == "-c"@,
        cmd.args@[1]@ == value@,
{
    let program = match shell {
        Some(s) => String::from_str(s),
        None => String::from_str("/bin/sh"),
    };
    let mut args: Vec<String> = Vec::new();
    args.push(String::from_str("-c"));
    args.push(String::from_str(value));
    HookCommand { program, args }
}

} // verus!
