//! Settings of the editor that outlive a session.

use vstd::prelude::*;
use vstd::string::StringExecFns;

verus! {

/// How commands reach a backend.
#[derive(Debug, Clone, Copy, PartialEq, Eq, Structural)]
pub enum BackendConnectionStrategy {
    /// The backend runs in the editor's own process.
    Internal,
    /// The backend is a server at the other end of a connection.
    Remote,
}

impl Default for BackendConnectionStrategy {
    fn default() -> (strategy: Self)
        ensures
            strategy == BackendConnectionStrategy::Internal,
    {
        BackendConnectionStrategy::Internal
    }
}

/// The colours of the editor.
#[derive(Debug, Clone, Copy, PartialEq, Eq, Structural)]
pub enum Theme {
    Light,
    Dark,
}

impl Default for Theme {
    fn default() -> (theme: Self)
        ensures
            theme == Theme::Dark,
    {
        Theme::Dark
    }
}

/// A project that was opened before.
#[derive(Debug, Clone, PartialEq, Eq, Hash)]
pub struct RecentEntry {
    name: String,
    path: String,
}

impl RecentEntry {
    /// The title of the project.
    pub closed spec fn spec_name(&self) -> Seq<char> {
        self.name@
    }

    /// Where the project was opened from.
    pub closed spec fn spec_path(&self) -> Seq<char> {
        self.path@
    }

    /// The entry for the project titled `name` that was opened from `path`.
    pub fn new(name: &str, path: &str) -> (entry: Self)
        ensures
            entry.spec_name() == name@,
            entry.spec_path() == path@,
    {
        Self { name: String::from_str(name), path: String::from_str(path) }
    }

    /// The title of the project.
    pub fn name(&self) -> (name: &str)
        ensures
            name@ == self.spec_name(),
    {
        self.name.as_str()
    }

    /// Where the project was opened from.
    pub fn path(&self) -> (path: &str)
        ensures
            path@ == self.spec_path(),
    {
        self.path.as_str()
    }
}

/// What a file that the editor asked for is meant for.
#[derive(Debug, Clone, Copy, PartialEq, Eq, Structural)]
pub enum FileSystemTag {
    Project,
}

impl Default for FileSystemTag {
    fn default() -> (tag: Self)
        ensures
            tag == FileSystemTag::Project,
    {
        FileSystemTag::Project
    }
}

impl FileSystemTag {
    /// The tag as it is written into a file-system request.
    pub open spec fn spec_to_string(&self) -> Seq<char> {
        match self {
            FileSystemTag::Project => "Project"@,
        }
    }

    /// The tag as it is written into a file-system request.
    pub fn to_string(&self) -> (text: String)
        ensures
            text@ == self.spec_to_string(),
    {
        match self {
            FileSystemTag::Project => String::from_str("Project"),
        }
    }
}

} // verus!
