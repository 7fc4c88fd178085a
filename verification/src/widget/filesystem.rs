//! The vocabulary of file-system requests: what a widget asks the editor to
//! pick or save, and what comes back.

use vstd::prelude::*;

verus! {

/// The id of the one who asks.
pub type FileSystemId = String;

/// A path in the file system.
pub type FileSystemPath = String;

/// The content of a file.
pub type FileSystemBytes = Vec<u8>;

/// What a file or folder is meant for, as the one who asked wrote it.
pub type FileSystemTag = String;

/// What a widget asks of the file system.
#[derive(Debug, PartialEq, Eq)]
#[allow(inconsistent_fields)]
pub enum FileSystemCommand {
    Nothing,
    PickFile { tag: String, filter_name: String, extensions: Vec<String> },
    PickFolder { tag: String },
    SaveFile { bytes: Vec<u8> },
}

impl Default for FileSystemCommand {
    fn default() -> (command: Self)
        ensures
            command == FileSystemCommand::Nothing,
    {
        FileSystemCommand::Nothing
    }
}

/// The outcome of a file-system request.
#[derive(Debug, PartialEq, Eq)]
pub enum FileSystemResult {
    Success(FileSystemMessage),
    Error(FilesystemError),
}

impl Default for FileSystemResult {
    fn default() -> (result: Self)
        ensures
            result == FileSystemResult::Success(FileSystemMessage::Empty),
    {
        Self::Success(FileSystemMessage::Empty)
    }
}

/// What a file-system request that succeeded hands back.
#[derive(Debug, PartialEq, Eq)]
#[allow(inconsistent_fields)]
pub enum FileSystemMessage {
    Empty,
    File { path: String, bytes: Vec<u8>, tag: FileSystemTag },
    Folder { path: String, tag: FileSystemTag },
}

impl Default for FileSystemMessage {
    fn default() -> (message: Self)
        ensures
            message == FileSystemMessage::Empty,
    {
        FileSystemMessage::Empty
    }
}

/// The ways in which a file-system request fails.
#[derive(Debug, PartialEq, Eq)]
pub enum FilesystemError {
    Nothing,
}

impl Default for FilesystemError {
    fn default() -> (error: Self)
        ensures
            error == FilesystemError::Nothing,
    {
        FilesystemError::Nothing
    }
}

/// The views of the strings of `texts`.
pub open spec fn views(texts: Seq<String>) -> Seq<Seq<char>> {
    texts.map_values(|text: String| text@)
}

impl FileSystemCommand {
    /// The two commands ask the same: the same kind, the same texts, and the
    /// same bytes and extensions in the same order.
    pub open spec fn same(&self, other: &FileSystemCommand) -> bool {
        match (*self, *other) {
            (FileSystemCommand::Nothing, FileSystemCommand::Nothing) => true,
            (
                FileSystemCommand::PickFile { tag, filter_name, extensions },
                FileSystemCommand::PickFile {
                    tag: other_tag,
                    filter_name: other_filter_name,
                    extensions: other_extensions,
                },
            ) => tag@ == other_tag@ && filter_name@ == other_filter_name@ && views(extensions@)
                == views(other_extensions@),
            (
                FileSystemCommand::PickFolder { tag },
                FileSystemCommand::PickFolder { tag: other_tag },
            ) => tag@ == other_tag@,
            (
                FileSystemCommand::SaveFile { bytes },
                FileSystemCommand::SaveFile { bytes: other_bytes },
            ) => bytes@ == other_bytes@,
            _ => false,
        }
    }
}

impl Clone for FileSystemCommand {
    fn clone(&self) -> (copy: Self)
        ensures
            self.same(&copy),
    {
        match self {
            FileSystemCommand::Nothing => FileSystemCommand::Nothing,
            FileSystemCommand::PickFile { tag, filter_name, extensions } => {
                let copied = extensions.clone();
                proof {
                    assert(views(extensions@) =~= views(copied@));
                }
                FileSystemCommand::PickFile {
                    tag: tag.clone(),
                    filter_name: filter_name.clone(),
                    extensions: copied,
                }
            },
            FileSystemCommand::PickFolder { tag } => FileSystemCommand::PickFolder {
                tag: tag.clone(),
            },
            FileSystemCommand::SaveFile { bytes } => {
                let copied = bytes.clone();
                proof {
                    assert(bytes@ =~= copied@);
                }
                FileSystemCommand::SaveFile { bytes: copied }
            },
        }
    }
}

impl Clone for FilesystemError {
    fn clone(&self) -> (copy: Self)
        ensures
            copy == *self,
    {
        match self {
            FilesystemError::Nothing => FilesystemError::Nothing,
        }
    }
}

impl FileSystemMessage {
    /// The two messages hand over the same: the same kind, the same texts and
    /// the same bytes.
    pub open spec fn same(&self, other: &FileSystemMessage) -> bool {
        match (*self, *other) {
            (FileSystemMessage::Empty, FileSystemMessage::Empty) => true,
            (
                FileSystemMessage::File { path, bytes, tag },
                FileSystemMessage::File { path: other_path, bytes: other_bytes, tag: other_tag },
            ) => path@ == other_path@ && bytes@ == other_bytes@ && tag@ == other_tag@,
            (
                FileSystemMessage::Folder { path, tag },
                FileSystemMessage::Folder { path: other_path, tag: other_tag },
            ) => path@ == other_path@ && tag@ == other_tag@,
            _ => false,
        }
    }
}

impl Clone for FileSystemMessage {
    fn clone(&self) -> (copy: Self)
        ensures
            self.same(&copy),
    {
        match self {
            FileSystemMessage::Empty => FileSystemMessage::Empty,
            FileSystemMessage::File { path, bytes, tag } => {
                let copied = bytes.clone();
                proof {
                    assert(bytes@ =~= copied@);
                }
                FileSystemMessage::File { path: path.clone(), bytes: copied, tag: tag.clone() }
            },
            FileSystemMessage::Folder { path, tag } => FileSystemMessage::Folder {
                path: path.clone(),
                tag: tag.clone(),
            },
        }
    }
}

impl FileSystemResult {
    /// The two results are the same outcome.
    pub open spec fn same(&self, other: &FileSystemResult) -> bool {
        match (*self, *other) {
            (FileSystemResult::Success(message), FileSystemResult::Success(other_message)) => {
                message.same(&other_message)
            },
            (FileSystemResult::Error(error), FileSystemResult::Error(other_error)) => error
                == other_error,
            _ => false,
        }
    }
}

impl Clone for FileSystemResult {
    fn clone(&self) -> (copy: Self)
        ensures
            self.same(&copy),
    {
        match self {
            FileSystemResult::Success(message) => FileSystemResult::Success(message.clone()),
            FileSystemResult::Error(error) => FileSystemResult::Error(error.clone()),
        }
    }
}

} // verus!
