//! Options for opening a file, with opinionated defaults.

use vstd::prelude::*;
use crate::error::{Error, ErrorKind};
use crate::paths::{
    file_name_of, join_path, joined_path, parent_of, path_file_name, path_parent,
};

verus! {

/// How a file is opened for writing.
#[derive(Debug, Clone, Copy, Hash, PartialEq, Eq, PartialOrd, Ord, Structural)]
pub struct WriteOptions {
    /// creates the file if nonexistent
    pub create: bool,
    /// append rather than truncate
    pub append: bool,
}

/// Whether a file is read or written.
#[derive(Debug, Clone, Copy, Hash, PartialEq, Eq, PartialOrd, Ord, Structural)]
pub enum ReadOrWrite {
    Read,
    Write(WriteOptions),
}

impl ReadOrWrite {
    /// Read mode
    pub fn read() -> (r: Self)
        ensures
            r == ReadOrWrite::Read,
    {
        ReadOrWrite::Read
    }

    /// Write mode, with options to `create` if the file should be created if it
    /// does not exist, and `append` to append to the file instead of overwrite.
    pub fn write(create: bool, append: bool) -> (r: Self)
        ensures
            r == ReadOrWrite::Write(WriteOptions { create, append }),
    {
        ReadOrWrite::Write(WriteOptions { create, append })
    }
}

/// The flags with which a file is opened.
#[derive(Debug, Clone, Copy, Hash, PartialEq, Eq, Structural)]
pub struct OpenFlags {
    pub read: bool,
    pub write: bool,
    pub create: bool,
    pub truncate: bool,
    pub append: bool,
}

/// A path to a file together with how it is to be opened.
#[derive(Debug, Clone, Hash, PartialEq, Eq, PartialOrd, Ord)]
pub struct FileOptions {
    /// What should be a path to a file
    pub path: String,
    /// `ReadOrWrite` options
    pub options: ReadOrWrite,
}

/// A `FileOptions` as plain values.
pub struct FileOptionsView {
    pub path: Seq<char>,
    pub options: ReadOrWrite,
}

impl View for FileOptions {
    type V = FileOptionsView;

    open spec fn view(&self) -> FileOptionsView {
        FileOptionsView { path: self.path@, options: self.options }
    }
}

/// What has to be looked at on the filesystem before a file is opened.
#[derive(Debug, Clone, PartialEq, Eq)]
pub struct Preacquire {
    /// The directory of the file, which has to exist.
    pub directory: String,
    /// The name of the file in that directory.
    pub file_name: String,
    /// Whether the file itself has to exist.
    pub must_exist: bool,
}

/// The options that `write` and `write2` start from.
pub open spec fn default_write() -> ReadOrWrite {
    ReadOrWrite::Write(WriteOptions { create: true, append: false })
}

impl FileOptions {
    /// New `FileOptions` with file path `path` and `ReadOrWrite` `options`
    pub fn new(path: &str, options: ReadOrWrite) -> (r: Self)
        ensures
            r.path@ == path@,
            r.options == options,
    {
        FileOptions { path: path.to_owned(), options }
    }

    /// New `FileOptions` with `directory`, `file_name`, and `ReadOrWrite`
    /// `options`
    pub fn new2(directory: &str, file_name: &str, options: ReadOrWrite) -> (r: Self)
        ensures
            r.path@ == joined_path(directory@, file_name@),
            r.options == options,
    {
        FileOptions { path: join_path(directory, file_name), options }
    }

    /// `FileOptions` for reading from `file_path`
    pub fn read(file_path: &str) -> (r: Self)
        ensures
            r.path@ == file_path@,
            r.options == ReadOrWrite::Read,
    {
        FileOptions { path: file_path.to_owned(), options: ReadOrWrite::Read }
    }

    /// `FileOptions` for reading from `file_name` in `directory`
    pub fn read2(directory: &str, file_name: &str) -> (r: Self)
        ensures
            r.path@ == joined_path(directory@, file_name@),
            r.options == ReadOrWrite::Read,
    {
        FileOptions { path: join_path(directory, file_name), options: ReadOrWrite::Read }
    }

    /// `FileOptions` for writing to `file_name`. Sets `create` to true and
    /// `append` to false by default.
    pub fn write(file_path: &str) -> (r: Self)
        ensures
            r.path@ == file_path@,
            r.options == default_write(),
    {
        FileOptions {
            path: file_path.to_owned(),
            options: ReadOrWrite::Write(WriteOptions { create: true, append: false }),
        }
    }

    /// `FileOptions` for writing to `file_name` in `directory`. Sets `create`
    /// to true and `append` to false by default.
    pub fn write2(directory: &str, file_name: &str) -> (r: Self)
        ensures
            r.path@ == joined_path(directory@, file_name@),
            r.options == default_write(),
    {
        FileOptions {
            path: join_path(directory, file_name),
            options: ReadOrWrite::Write(WriteOptions { create: true, append: false }),
        }
    }

    /// A copy of the options.
    pub fn duplicate(&self) -> (r: Self)
        ensures
            r == *self,
    {
        FileOptions { path: self.path.clone(), options: self.options }
    }

    /// Sets whether the file is created when it does not exist. Options for
    /// reading have no such setting and are refused.
    pub fn create(self, create: bool) -> (r: Result<Self, Error>)
        ensures
            match self.options {
                ReadOrWrite::Write(w) => r matches Ok(f) && f.path == self.path && f.options
                    == ReadOrWrite::Write(WriteOptions { create, append: w.append }),
                ReadOrWrite::Read => r matches Err(e) && e.kind == ErrorKind::Validation,
            },
    {
        match self.options {
            ReadOrWrite::Write(w) => Ok(
                FileOptions {
                    path: self.path,
                    options: ReadOrWrite::Write(WriteOptions { create, append: w.append }),
                },
            ),
            ReadOrWrite::Read => {
                let mut message = self.path;
                message.append(": create() -> options are readonly");
                Err(Error::new(ErrorKind::Validation, message))
            },
        }
    }

    /// Sets whether writes are appended. Options for reading have no such
    /// setting and are refused.
    pub fn append(self, append: bool) -> (r: Result<Self, Error>)
        ensures
            match self.options {
                ReadOrWrite::Write(w) => r matches Ok(f) && f.path == self.path && f.options
                    == ReadOrWrite::Write(WriteOptions { create: w.create, append }),
                ReadOrWrite::Read => r matches Err(e) && e.kind == ErrorKind::Validation,
            },
    {
        match self.options {
            ReadOrWrite::Write(w) => Ok(
                FileOptions {
                    path: self.path,
                    options: ReadOrWrite::Write(WriteOptions { create: w.create, append }),
                },
            ),
            ReadOrWrite::Read => {
                let mut message = self.path;
                message.append(": append() -> options are readonly");
                Err(Error::new(ErrorKind::Validation, message))
            },
        }
    }

    /// Whether the file itself has to exist before it is opened. A file that
    /// is written with `create` needs only its directory.
    pub open spec fn spec_must_exist(&self) -> bool {
        match self.options {
            ReadOrWrite::Read => true,
            ReadOrWrite::Write(w) => !w.create,
        }
    }

    /// Whether the file itself has to exist before it is opened.
    #[verifier::when_used_as_spec(spec_must_exist)]
    pub fn must_exist(&self) -> (b: bool)
        ensures
            b == self.spec_must_exist(),
    {
        match self.options {
            ReadOrWrite::Read => true,
            ReadOrWrite::Write(w) => !w.create,
        }
    }

    /// What has to be looked at before the file is opened: the directory of
    /// the path has to exist, and the file too unless it is created. A path
    /// without a parent or without a file name is refused with an error of
    /// kind `Validation`.
    pub fn preacquire(&self) -> (r: Result<Preacquire, Error>)
        ensures
            match r {
                Ok(plan) => {
                    &&& parent_of(self.path@) == Some(plan.directory@)
                    &&& file_name_of(self.path@) == Some(plan.file_name@)
                    &&& plan.must_exist == self.spec_must_exist()
                },
                Err(e) => (parent_of(self.path@) is None || file_name_of(self.path@) is None)
                    && e.kind == ErrorKind::Validation,
            },
    {
        let directory = match path_parent(self.path.as_str()) {
            Some(d) => d,
            None => {
                return Err(
                    Error::new(
                        ErrorKind::Validation,
                        "FileOptions::preacquire() -> empty path".to_owned(),
                    ),
                );
            },
        };
        let file_name = match path_file_name(self.path.as_str()) {
            Some(n) => n,
            None => {
                let mut message = self.path.clone();
                message.append(
                    ": preacquire() could not acquire file name, was only a directory input?",
                );
                return Err(Error::new(ErrorKind::Validation, message));
            },
        };
        Ok(Preacquire { directory, file_name, must_exist: self.must_exist() })
    }

    /// The flags for opening the file: reading opens read-only; writing
    /// truncates unless it appends, and creates only where `create` is set.
    pub open spec fn spec_open_flags(&self) -> OpenFlags {
        match self.options {
            ReadOrWrite::Read => OpenFlags {
                read: true,
                write: false,
                create: false,
                truncate: false,
                append: false,
            },
            ReadOrWrite::Write(w) => OpenFlags {
                read: false,
                write: true,
                create: w.create,
                truncate: !w.append,
                append: w.append,
            },
        }
    }

    /// The flags for opening the file.
    #[verifier::when_used_as_spec(spec_open_flags)]
    pub fn open_flags(&self) -> (f: OpenFlags)
        ensures
            f == self.spec_open_flags(),
    {
        match self.options {
            ReadOrWrite::Read => OpenFlags {
                read: true,
                write: false,
                create: false,
                truncate: false,
                append: false,
            },
            ReadOrWrite::Write(w) => OpenFlags {
                read: false,
                write: true,
                create: w.create,
                truncate: !w.append,
                append: w.append,
            },
        }
    }
}

} // verus!
