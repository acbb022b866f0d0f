//! The data of a run: directory listings as they were read, the moves that
//! follow from them, and the failures that end a run.

use vstd::prelude::*;
use vstd::string::*;

verus! {

/// What a directory entry is, links followed.
#[derive(Clone, Copy, Debug, PartialEq, Eq, Structural)]
pub enum EntryKind {
    /// A regular file.
    File,
    /// A directory.
    Directory,
    /// Anything else: a dangling link, a socket, a device.
    Other,
}

/// One entry of a directory listing.
#[derive(Clone, Debug, PartialEq, Eq)]
pub struct Entry {
    /// The base name, or `None` where it cannot be read as text.
    pub name: Option<String>,
    pub kind: EntryKind,
}

/// An entry, with its name as a sequence of characters.
pub struct EntryModel {
    pub name: Option<Seq<char>>,
    pub kind: EntryKind,
}

impl View for Entry {
    type V = EntryModel;

    open spec fn view(&self) -> EntryModel {
        EntryModel {
            name: match self.name {
                Some(n) => Some(n@),
                None => None,
            },
            kind: self.kind,
        }
    }
}

/// The entries of a listing, each by its view.
pub open spec fn entry_views(entries: Seq<Entry>) -> Seq<EntryModel> {
    entries.map_values(|e: Entry| e@)
}

/// What reading a directory gave.
#[derive(Clone, Debug, PartialEq, Eq)]
pub enum Listing {
    /// The directory is missing, is no directory, or may not be read.
    Unreadable,
    /// Its entries, in the order in which they were listed.
    Entries(Vec<Entry>),
}

impl View for Listing {
    type V = Option<Seq<EntryModel>>;

    open spec fn view(&self) -> Option<Seq<EntryModel>> {
        match self {
            Listing::Unreadable => None,
            Listing::Entries(entries) => Some(entry_views(entries@)),
        }
    }
}

/// One file to move.
#[derive(Clone, Debug, PartialEq, Eq)]
pub struct Move {
    /// The path of the file as it was found.
    pub source: String,
    /// The path that it gets.
    pub destination: String,
    /// The directory that holds the destination, to be made where it is missing.
    pub into: String,
}

/// A move, with its paths as sequences of characters.
pub struct MoveModel {
    pub source: Seq<char>,
    pub destination: Seq<char>,
    pub into: Seq<char>,
}

impl View for Move {
    type V = MoveModel;

    open spec fn view(&self) -> MoveModel {
        MoveModel { source: self.source@, destination: self.destination@, into: self.into@ }
    }
}

/// A list of moves, each by its view.
pub open spec fn move_views(moves: Seq<Move>) -> Seq<MoveModel> {
    moves.map_values(|m: Move| m@)
}

/// A list of paths, each by its view.
pub open spec fn path_views(paths: Seq<String>) -> Seq<Seq<char>> {
    paths.map_values(|p: String| p@)
}

/// Why a run ends early.
#[derive(Clone, Copy, Debug, PartialEq, Eq, Structural)]
pub enum FailureKind {
    /// A directory to scan cannot be listed.
    DirectoryUnreadable,
    /// The name of a directory entry is no text.
    FileNameInvalid,
    /// A file could not be renamed to its destination.
    MoveFailed,
    /// The directory for a destination could not be made.
    DirectoryCreateFailed,
}

/// A failure and the path at which it arose.
#[derive(Clone, Debug, PartialEq, Eq)]
pub struct Failure {
    pub kind: FailureKind,
    pub path: String,
}

/// A failure, with its path as a sequence of characters.
pub struct FailureModel {
    pub kind: FailureKind,
    pub path: Seq<char>,
}

impl View for Failure {
    type V = FailureModel;

    open spec fn view(&self) -> FailureModel {
        FailureModel { kind: self.kind, path: self.path@ }
    }
}

impl Failure {
    /// The operation that failed, in words.
    pub fn operation(&self) -> (words: &'static str)
        ensures
            words@ == operation_words(self.kind),
    {
        match self.kind {
            FailureKind::DirectoryUnreadable => "cannot list directory",
            FailureKind::FileNameInvalid => "cannot read an entry's name as text in",
            FailureKind::MoveFailed => "cannot move file",
            FailureKind::DirectoryCreateFailed => "cannot create directory",
        }
    }

    /// The diagnostic for this failure: the operation, then the path.
    pub fn message(&self) -> (text: String)
        ensures
            text@ == operation_words(self.kind) + ": "@ + self.path@,
    {
        String::from_str(self.operation()).concat(": ").concat(self.path.as_str())
    }
}

/// The words that name the operation behind each kind of failure.
pub open spec fn operation_words(kind: FailureKind) -> Seq<char> {
    match kind {
        FailureKind::DirectoryUnreadable => "cannot list directory"@,
        FailureKind::FileNameInvalid => "cannot read an entry's name as text in"@,
        FailureKind::MoveFailed => "cannot move file"@,
        FailureKind::DirectoryCreateFailed => "cannot create directory"@,
    }
}

} // verus!
