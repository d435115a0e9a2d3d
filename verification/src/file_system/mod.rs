//! File system views of disk images: file trees and file time stamps.
use vstd::prelude::*;

pub mod date_time;
pub mod file_tree;

verus! {

/// A kind of file system.
#[derive(Copy, Clone, Debug, PartialEq, Eq, Structural)]
pub enum FileSystemType {
    Fat12,
    Fat16,
}

/// A kind of archive that a file system can be exported to.
#[derive(Copy, Clone, Debug, PartialEq, Eq, Structural)]
pub enum FileSystemArchive {
    Zip,
    Tar,
}

impl FileSystemArchive {
    /// The file extension of the archive kind, with its leading dot.
    pub fn ext(&self) -> (r: &'static str)
        ensures
            r@ == match self {
                FileSystemArchive::Zip => ".zip"@,
                FileSystemArchive::Tar => ".tar"@,
            },
    {
        match self {
            FileSystemArchive::Zip => ".zip",
            FileSystemArchive::Tar => ".tar",
        }
    }

    /// The name of the archive kind.
    pub fn name(&self) -> (r: &'static str)
        ensures
            r@ == match self {
                FileSystemArchive::Zip => "Zip"@,
                FileSystemArchive::Tar => "Tar"@,
            },
    {
        match self {
            FileSystemArchive::Zip => "Zip",
            FileSystemArchive::Tar => "Tar",
        }
    }
}

/// Errors of file system implementations.
#[derive(Clone, Debug)]
pub enum FileSystemError {
    IoError(String),
    NotMountedError,
    EmptyFileSystem,
    MountError(String),
    ReadError(String),
    WriteError(String),
    ArchiveError(String),
    PathNotFound(String),
    FeatureError(String),
    CycleError,
    UnsupportedFileObject(String),
}


/// The kind of an entry found in a host directory.
#[derive(Copy, Clone, Debug, PartialEq, Eq, Structural)]
pub enum HostEntryKind {
    File,
    Directory,
    Symlink,
    Other,
}

/// What a file tree built from a host directory does with an entry of it.
#[derive(Copy, Clone, Debug, PartialEq, Eq, Structural)]
pub enum HostEntryAction {
    /// Add the file.
    AddFile,
    /// Read the subdirectory into a subtree.
    Descend,
    /// Leave the subdirectory out, as the walk is not recursive.
    Skip,
    /// Refuse the entry: symbolic links and other objects are not supported.
    Refuse,
}

/// What a tree builder does with an entry of the given kind: files are added, directories
/// read when the walk is recursive and left out otherwise, anything else refused.
pub fn host_entry_action(kind: HostEntryKind, recursive: bool) -> (r: HostEntryAction)
    ensures
        r == match kind {
            HostEntryKind::File => HostEntryAction::AddFile,
            HostEntryKind::Directory => if recursive { HostEntryAction::Descend } else { HostEntryAction::Skip },
            _ => HostEntryAction::Refuse,
        },
{
    match kind {
        HostEntryKind::File => HostEntryAction::AddFile,
        HostEntryKind::Directory => if recursive { HostEntryAction::Descend } else { HostEntryAction::Skip },
        _ => HostEntryAction::Refuse,
    }
}

/// The names of `parts` joined by `/`.
pub open spec fn slash_joined(parts: Seq<Seq<char>>) -> Seq<char>
    decreases parts.len(),
{
    if parts.len() == 0 {
        Seq::empty()
    } else if parts.len() == 1 {
        parts[0]
    } else {
        slash_joined(parts.drop_last()) + seq!['/'] + parts.last()
    }
}

/// The views of a list of strings.
pub open spec fn string_views(v: Seq<String>) -> Seq<Seq<char>> {
    v.map_values(|s: String| s@)
}

/// The names of `parts` joined by `/`.
pub fn join_with_slash(parts: &Vec<String>) -> (r: String)
    ensures
        r@ == slash_joined(string_views(parts@)),
{
    let mut s = String::new();
    let mut i: usize = 0;
    proof { reveal_strlit("/"); }
    while i < parts.len()
        invariant
            i <= parts@.len(),
            s@ == slash_joined(string_views(parts@.take(i as int))),
        decreases parts.len() - i,
    {
        let ghost v = string_views(parts@.take(i + 1));
        proof {
            assert(v.drop_last() =~= string_views(parts@.take(i as int)));
            assert(v.last() == parts@[i as int]@);
            assert(v.len() == i + 1);
        }
        if i > 0 {
            proof { reveal_strlit("/"); }
            s.append("/");
            s.append(parts[i].as_str());
            assert(slash_joined(v) == slash_joined(v.drop_last()) + seq!['/'] + v.last());
        } else {
            s.append(parts[i].as_str());
            assert(slash_joined(v) == v[0]);
            assert(s@ =~= v[0]);
        }
        i += 1;
    }
    assert(parts@.take(parts@.len() as int) =~= parts@);
    s
}

/// The path of an entry named `name` in the directory reached by the names `stack`: the
/// names and `name` joined by `/`, or `name` alone at the top.
pub fn host_entry_path(stack: &Vec<String>, name: &str) -> (r: String)
    ensures
        r@ == if stack@.len() == 0 { name@ } else { slash_joined(string_views(stack@)) + seq!['/'] + name@ },
{
    if stack.len() == 0 {
        return String::from_str(name);
    }
    let mut s = join_with_slash(stack);
    proof { reveal_strlit("/"); }
    s.append("/");
    s.append(name);
    s
}

} // verus!
