//! What the library knows of the file system: paths that were found to be
//! files or directories.
use vstd::prelude::*;
use vstd::std_specs::convert::FromSpecImpl;
use crate::path::join;
use crate::path::path_join;

verus! {

/// Why a path is not what it was taken for.
#[derive(Debug)]
pub enum FileSystemError {
    /// There is nothing at the path.
    NotFound,
    /// A directory was asked for, and the path leads to something else.
    NotADirectory,
    /// A file was asked for, and the path leads to something else.
    IsADirectory,
    /// The file system refused to resolve the path: the message of its
    /// error.
    Unresolved(String),
}

pub ghost enum FileSystemErrorModel {
    NotFound,
    NotADirectory,
    IsADirectory,
    Unresolved(Seq<char>),
}

impl View for FileSystemError {
    type V = FileSystemErrorModel;

    open spec fn view(&self) -> FileSystemErrorModel {
        match self {
            FileSystemError::NotFound => FileSystemErrorModel::NotFound,
            FileSystemError::NotADirectory => FileSystemErrorModel::NotADirectory,
            FileSystemError::IsADirectory => FileSystemErrorModel::IsADirectory,
            FileSystemError::Unresolved(message) => FileSystemErrorModel::Unresolved(message@),
        }
    }
}

/// What the file system says of a path: whether anything is there, the
/// path with every link and every `..` resolved, or the message of the
/// error that kept it from being resolved, and whether the resolved path
/// leads to a file or to a directory.
#[derive(Debug)]
pub struct PathProbe {
    pub exists: bool,
    pub canonical: Result<String, String>,
    pub is_file: bool,
    pub is_dir: bool,
}

pub ghost struct ProbeModel {
    pub exists: bool,
    pub canonical: Result<Seq<char>, Seq<char>>,
    pub is_file: bool,
    pub is_dir: bool,
}

impl View for PathProbe {
    type V = ProbeModel;

    open spec fn view(&self) -> ProbeModel {
        ProbeModel {
            exists: self.exists,
            canonical: match self.canonical {
                Ok(path) => Ok(path@),
                Err(message) => Err(message@),
            },
            is_file: self.is_file,
            is_dir: self.is_dir,
        }
    }
}

impl ProbeModel {
    /// The file that the probe found, or why it found none: the path must
    /// lead somewhere, must resolve, and must lead to a file.
    pub open spec fn file(self) -> Result<Seq<char>, FileSystemErrorModel> {
        if !self.exists {
            Err(FileSystemErrorModel::NotFound)
        } else {
            match self.canonical {
                Err(message) => Err(FileSystemErrorModel::Unresolved(message)),
                Ok(path) => if self.is_file {
                    Ok(path)
                } else {
                    Err(FileSystemErrorModel::IsADirectory)
                },
            }
        }
    }

    /// The directory that the probe found, or why it found none: the path
    /// must resolve, and must lead to a directory.
    pub open spec fn directory(self) -> Result<Seq<char>, FileSystemErrorModel> {
        match self.canonical {
            Err(message) => Err(FileSystemErrorModel::Unresolved(message)),
            Ok(path) => if self.is_dir {
                Ok(path)
            } else {
                Err(FileSystemErrorModel::NotADirectory)
            },
        }
    }

    /// The entry that the probe of the path `path` found: a file, a
    /// directory, or something of which only the path is known.
    pub open spec fn node(self, path: Seq<char>) -> Result<NodeModel, FileSystemErrorModel> {
        if self.is_file {
            match self.file() {
                Ok(file) => Ok(NodeModel::File(file)),
                Err(error) => Err(error),
            }
        } else if self.is_dir {
            match self.directory() {
                Ok(directory) => Ok(NodeModel::Directory(directory)),
                Err(error) => Err(error),
            }
        } else {
            Ok(NodeModel::Unknown(path))
        }
    }
}

/// A path that was found to be a file.
#[derive(Clone, Debug)]
pub struct File {
    path: String,
}

impl View for File {
    type V = Seq<char>;

    closed spec fn view(&self) -> Seq<char> {
        self.path@
    }
}

impl File {
    /// The file that `probe` found, under its resolved path.
    pub fn new(probe: &PathProbe) -> (found: Result<File, FileSystemError>)
        ensures
            match found {
                Ok(file) => probe@.file() == Ok::<Seq<char>, FileSystemErrorModel>(file@),
                Err(error) => probe@.file() == Err::<Seq<char>, FileSystemErrorModel>(error@),
            },
    {
        if !probe.exists {
            return Err(FileSystemError::NotFound);
        }
        match &probe.canonical {
            Err(message) => Err(FileSystemError::Unresolved(message.clone())),
            Ok(path) => {
                if probe.is_file {
                    Ok(File { path: path.clone() })
                } else {
                    Err(FileSystemError::IsADirectory)
                }
            },
        }
    }

    /// The directory that holds the file, as `probe`, the probe of that
    /// directory's path, found it; nothing for a file without a directory
    /// above it.
    pub fn containing_dir(&self, probe: Option<&PathProbe>) -> (found: Option<
        Result<Directory, FileSystemError>,
    >)
        ensures
            match (probe, found) {
                (Some(probe), Some(Ok(directory))) => probe@.directory() == Ok::<
                    Seq<char>,
                    FileSystemErrorModel,
                >(directory@),
                (Some(probe), Some(Err(error))) => probe@.directory() == Err::<
                    Seq<char>,
                    FileSystemErrorModel,
                >(error@),
                (None, None) => true,
                _ => false,
            },
    {
        match probe {
            Some(probe) => Some(Directory::new(probe)),
            None => None,
        }
    }

    /// The file at `path`; that there is such a file is the caller's
    /// word.
    pub fn new_unchecked(path: &str) -> (file: File)
        ensures
            file@ == path@,
    {
        File { path: path.to_owned() }
    }

    /// The path of the file.
    pub fn path(&self) -> (path: &str)
        ensures
            path@ == self@,
    {
        self.path.as_str()
    }

    /// A copy of this file.
    pub fn duplicate(&self) -> (copy: File)
        ensures
            copy@ == self@,
    {
        File { path: self.path.clone() }
    }
}

/// A path that was found to be a directory.
#[derive(Clone, Debug)]
pub struct Directory(String);

impl View for Directory {
    type V = Seq<char>;

    closed spec fn view(&self) -> Seq<char> {
        self.0@
    }
}

impl Directory {
    /// The directory that `probe` found, under its resolved path.
    pub fn new(probe: &PathProbe) -> (found: Result<Directory, FileSystemError>)
        ensures
            match found {
                Ok(directory) => probe@.directory() == Ok::<Seq<char>, FileSystemErrorModel>(
                    directory@,
                ),
                Err(error) => probe@.directory() == Err::<Seq<char>, FileSystemErrorModel>(error@),
            },
    {
        match &probe.canonical {
            Err(message) => Err(FileSystemError::Unresolved(message.clone())),
            Ok(path) => {
                if probe.is_dir {
                    Ok(Directory(path.clone()))
                } else {
                    Err(FileSystemError::NotADirectory)
                }
            },
        }
    }

    /// The path of `path` below this directory, which is the path to
    /// probe for a child.
    pub fn child_path(&self, path: &str) -> (child: String)
        ensures
            child@ == join(self@, path@),
    {
        path_join(self.0.as_str(), path)
    }

    /// The directory below this one that `probe`, the probe of its path,
    /// found; nothing where nothing is at that path.
    pub fn get_child(&self, probe: &PathProbe) -> (found: Option<Result<Directory, FileSystemError>>)
        ensures
            found is Some == probe.exists,
            found matches Some(Ok(directory)) ==> probe@.directory() == Ok::<
                Seq<char>,
                FileSystemErrorModel,
            >(directory@),
            found matches Some(Err(error)) ==> probe@.directory() == Err::<
                Seq<char>,
                FileSystemErrorModel,
            >(error@),
    {
        if probe.exists {
            Some(Directory::new(probe))
        } else {
            None
        }
    }

    /// The file below this directory that `probe`, the probe of its path,
    /// found.
    pub fn get_file(&self, probe: &PathProbe) -> (found: Result<File, FileSystemError>)
        ensures
            match found {
                Ok(file) => probe@.file() == Ok::<Seq<char>, FileSystemErrorModel>(file@),
                Err(error) => probe@.file() == Err::<Seq<char>, FileSystemErrorModel>(error@),
            },
    {
        File::new(probe)
    }

    /// The files below this directory that `probes`, the probes of their
    /// paths, found; the first probe that found none ends the search with
    /// its error.
    pub fn get_files_vec(&self, probes: &Vec<PathProbe>) -> (found: Result<
        Vec<File>,
        FileSystemError,
    >)
        ensures
            match found {
                Ok(files) => files@.len() == probes@.len() && forall|i: int|
                    0 <= i < files@.len() ==> probes@[i]@.file() == Ok::<
                        Seq<char>,
                        FileSystemErrorModel,
                    >((#[trigger] files@[i])@),
                Err(error) => exists|k: int|
                    0 <= k < probes@.len() && (#[trigger] probes@[k])@.file() == Err::<
                        Seq<char>,
                        FileSystemErrorModel,
                    >(error@) && forall|i: int| 0 <= i < k ==> (#[trigger] probes@[i])@.file() is Ok,
            },
    {
        let mut files: Vec<File> = Vec::new();
        let mut i: usize = 0;
        while i < probes.len()
            invariant
                i <= probes.len(),
                files@.len() == i,
                forall|k: int|
                    0 <= k < i ==> probes@[k]@.file() == Ok::<Seq<char>, FileSystemErrorModel>(
                        (#[trigger] files@[k])@,
                    ),
            decreases probes.len() - i,
        {
            match File::new(&probes[i]) {
                Ok(file) => {
                    files.push(file);
                },
                Err(error) => {
                    proof {
                        assert(probes@[i as int]@.file() == Err::<Seq<char>, FileSystemErrorModel>(
                            error@,
                        ));
                        assert forall|k: int| 0 <= k < i implies (#[trigger] probes@[k])@.file()
                            is Ok by {
                            assert(probes@[k]@.file() == Ok::<Seq<char>, FileSystemErrorModel>(
                                files@[k]@,
                            ));
                        }
                    }
                    return Err(error);
                },
            }
            i += 1;
        }
        Ok(files)
    }

    /// The entries of this directory: for each path found in it, with
    /// its probe, the entry or why it could not be told what it is.
    pub fn try_iter_content(&self, entries: &Vec<(String, PathProbe)>) -> (found: Vec<
        Result<FSNode, FileSystemError>,
    >)
        ensures
            found@.len() == entries@.len(),
            forall|i: int|
                0 <= i < found@.len() ==> match #[trigger] found@[i] {
                    Ok(node) => entries@[i].1@.node(entries@[i].0@) == Ok::<
                        NodeModel,
                        FileSystemErrorModel,
                    >(node@),
                    Err(error) => entries@[i].1@.node(entries@[i].0@) == Err::<
                        NodeModel,
                        FileSystemErrorModel,
                    >(error@),
                },
    {
        let mut found: Vec<Result<FSNode, FileSystemError>> = Vec::new();
        let mut i: usize = 0;
        while i < entries.len()
            invariant
                i <= entries.len(),
                found@.len() == i,
                forall|k: int|
                    0 <= k < i ==> match #[trigger] found@[k] {
                        Ok(node) => entries@[k].1@.node(entries@[k].0@) == Ok::<
                            NodeModel,
                            FileSystemErrorModel,
                        >(node@),
                        Err(error) => entries@[k].1@.node(entries@[k].0@) == Err::<
                            NodeModel,
                            FileSystemErrorModel,
                        >(error@),
                    },
            decreases entries.len() - i,
        {
            found.push(FSNode::new(entries[i].0.as_str(), &entries[i].1));
            i += 1;
        }
        found
    }

    /// The directory at `path`; that there is such a directory is the
    /// caller's word.
    pub fn new_unchecked(path: &str) -> (directory: Directory)
        ensures
            directory@ == path@,
    {
        Directory(path.to_owned())
    }

    /// The path of the directory.
    pub fn path(&self) -> (path: &str)
        ensures
            path@ == self@,
    {
        self.0.as_str()
    }

    /// A copy of this directory.
    pub fn duplicate(&self) -> (copy: Directory)
        ensures
            copy@ == self@,
    {
        Directory(self.0.clone())
    }
}

/// An entry of a directory.
#[derive(Debug)]
pub enum FSNode {
    File(File),
    Directory(Directory),
    /// Neither a file nor a directory: only its path is known.
    Unknown(String),
}

pub ghost enum NodeModel {
    File(Seq<char>),
    Directory(Seq<char>),
    Unknown(Seq<char>),
}

impl View for FSNode {
    type V = NodeModel;

    open spec fn view(&self) -> NodeModel {
        match self {
            FSNode::File(file) => NodeModel::File(file@),
            FSNode::Directory(directory) => NodeModel::Directory(directory@),
            FSNode::Unknown(path) => NodeModel::Unknown(path@),
        }
    }
}

impl NodeModel {
    /// The path of the entry.
    pub open spec fn path(self) -> Seq<char> {
        match self {
            NodeModel::File(path) => path,
            NodeModel::Directory(path) => path,
            NodeModel::Unknown(path) => path,
        }
    }
}

impl FSNode {
    /// The entry at `path` as `probe`, the probe of that path, found it.
    pub fn new(path: &str, probe: &PathProbe) -> (found: Result<FSNode, FileSystemError>)
        ensures
            match found {
                Ok(node) => probe@.node(path@) == Ok::<NodeModel, FileSystemErrorModel>(node@),
                Err(error) => probe@.node(path@) == Err::<NodeModel, FileSystemErrorModel>(error@),
            },
    {
        if probe.is_file {
            match File::new(probe) {
                Ok(file) => Ok(FSNode::File(file)),
                Err(error) => Err(error),
            }
        } else if probe.is_dir {
            match Directory::new(probe) {
                Ok(directory) => Ok(FSNode::Directory(directory)),
                Err(error) => Err(error),
            }
        } else {
            Ok(FSNode::Unknown(path.to_owned()))
        }
    }

    /// The path of the entry.
    pub fn path(&self) -> (path: &str)
        ensures
            path@ == self@.path(),
    {
        match self {
            FSNode::File(file) => file.path(),
            FSNode::Directory(directory) => directory.path(),
            FSNode::Unknown(path) => path.as_str(),
        }
    }

    /// The entry as a file, if it is one.
    pub fn file(&self) -> (file: Option<&File>)
        ensures
            match file {
                Some(file) => self@ == NodeModel::File(file@),
                None => !(self@ is File),
            },
    {
        match self {
            FSNode::File(file) => Some(file),
            _ => None,
        }
    }

    /// The entry as a file, if it is one.
    pub fn into_file(self) -> (file: Option<File>)
        ensures
            match file {
                Some(file) => self@ == NodeModel::File(file@),
                None => !(self@ is File),
            },
    {
        match self {
            FSNode::File(file) => Some(file),
            _ => None,
        }
    }

    /// The entry as a directory, if it is one.
    pub fn directory(&self) -> (directory: Option<&Directory>)
        ensures
            match directory {
                Some(directory) => self@ == NodeModel::Directory(directory@),
                None => !(self@ is Directory),
            },
    {
        match self {
            FSNode::Directory(directory) => Some(directory),
            _ => None,
        }
    }

    /// The entry as a directory, if it is one.
    pub fn into_directory(self) -> (directory: Option<Directory>)
        ensures
            match directory {
                Some(directory) => self@ == NodeModel::Directory(directory@),
                None => !(self@ is Directory),
            },
    {
        match self {
            FSNode::Directory(directory) => Some(directory),
            _ => None,
        }
    }
}

impl From<File> for FSNode {
    fn from(file: File) -> (node: FSNode) {
        FSNode::File(file)
    }
}

impl FromSpecImpl<File> for FSNode {
    open spec fn obeys_from_spec() -> bool {
        true
    }

    open spec fn from_spec(file: File) -> FSNode {
        FSNode::File(file)
    }
}

impl From<Directory> for FSNode {
    fn from(directory: Directory) -> (node: FSNode) {
        FSNode::Directory(directory)
    }
}

impl FromSpecImpl<Directory> for FSNode {
    open spec fn obeys_from_spec() -> bool {
        true
    }

    open spec fn from_spec(directory: Directory) -> FSNode {
        FSNode::Directory(directory)
    }
}

} // verus!
