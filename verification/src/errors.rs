use vstd::prelude::*;
use vstd::string::StringExecFns;

verus! {

/// A failed hook invocation: the exit status (`None` when the process was
/// terminated by a signal), the hook command text, and its captured stderr.
#[derive(Debug)]
pub struct HookExecutionError {
    pub status: Option<i32>,
    pub command: String,
    pub stderr: String,
}

impl HookExecutionError {
    pub fn new(status: Option<i32>, command: String, stderr: String) -> (e: Self)
        ensures
            e.status == status,
            e.command == command,
            e.stderr == stderr,
    {
        Self { status, command, stderr }
    }

    /// The text of this error's status: whether the hook exited with a
    /// non-zero code or was terminated by a signal.
    pub open spec fn spec_status_text(self) -> Seq<char> {
        if self.status is Some {
            "exited with a non-zero code"@
        } else {
            "terminated by signal"@
        }
    }

    /// Human-readable rendering of this error.
    pub open spec fn spec_message(self) -> Seq<char> {
        "Hook '"@ + self.command@ + "' "@ + self.spec_status_text() + ", stderr: '"@
            + self.stderr@ + "'"@
    }

    pub fn message(&self) -> (m: String)
        ensures
            m@ == self.spec_message(),
    {
        let mut m = String::from_str("Hook '");
        m.append(self.command.as_str());
        m.append("' ");
        match self.status {
            Some(_) => m.append("exited with a non-zero code"),
            None => m.append("terminated by signal"),
        }
        m.append(", stderr: '");
        m.append(self.stderr.as_str());
        m.append("'");
        m
    }
}

/// Everything that can go wrong while installing an item. Each variant owns
/// the text it reports; all errors are scoped to the item that raised them.
#[derive(Debug)]
pub enum Error {
    /// A filesystem operation failed; carries the reported cause.
    IoError(String),
    /// A mapping string held no `:` separator; carries the raw mapping.
    FileMappingError(String),
    /// The configuration declares an unsupported schema version.
    InvalidConfigVersion(u16),
    /// A hook exited non-zero or was terminated by a signal.
    HookExecutionError(HookExecutionError),
    /// Lexical path resolution popped above the filesystem root.
    InvalidPath(String),
    /// A selected item name is not a key of the configuration.
    InvalidItem(String),
    /// An environment prerequisite was missing; carries a description.
    Unexpected(String),
}

impl Error {
    /// Human-readable rendering of this error.
    pub open spec fn spec_message(self) -> Seq<char> {
        match self {
            Error::IoError(e) => e@,
            Error::FileMappingError(mapping) => "invalid mapping '"@ + mapping@ + "'"@,
            Error::InvalidConfigVersion(_) => "unsupported config version"@,
            Error::HookExecutionError(e) => e.spec_message(),
            Error::InvalidPath(path) => "Invalid path: "@ + path@,
            Error::InvalidItem(item) => "Item: '"@ + item@ + "' is invalid"@,
            Error::Unexpected(e) => e@,
        }
    }

    pub fn message(&self) -> (m: String)
        ensures
            m@ == self.spec_message(),
    {
        match self {
            Error::IoError(e) => e.clone(),
            Error::FileMappingError(mapping) => {
                let mut m = String::from_str("invalid mapping '");
                m.append(mapping.as_str());
                m.append("'");
                m
            },
            Error::InvalidConfigVersion(_) => String::from_str("unsupported config version"),
            Error::HookExecutionError(e) => e.message(),
            Error::InvalidPath(path) => {
                let mut m = String::from_str("Invalid path: ");
                m.append(path.as_str());
                m
            },
            Error::InvalidItem(item) => {
                let mut m = String::from_str("Item: '");
                m.append(item.as_str());
                m.append("' is invalid");
                m
            },
            Error::Unexpected(e) => e.clone(),
        }
    }
}

} // verus!
