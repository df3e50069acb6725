//! The in-memory tar archive that serves as the build context of an image.

use vstd::prelude::*;
use crate::error::{Error, ErrorKind};
use crate::text::{distinct, is_listed};

verus! {

/// A `tar::Builder` that writes into a `Vec<u8>`.
#[verifier::external_body]
pub struct TarBuilder {
    inner: tar::Builder<Vec<u8>>,
}

/// `std::io::Error`, carried as an opaque value.
#[verifier::external_type_specification]
#[verifier::external_body]
pub struct ExIoError(std::io::Error);

/// The bytes that a builder has written to its buffer so far.
pub uninterp spec fn tar_bytes(b: TarBuilder) -> Seq<u8>;

/// Whether the end of the archive has been written already.
pub uninterp spec fn tar_finished(b: TarBuilder) -> bool;

/// The bytes of one archive entry (header blocks, content and padding) that
/// `tar::Builder::append_data` writes for a fresh GNU header with the given
/// mode and the content's length as size, under the given path; `None` for a
/// path that it refuses.
pub uninterp spec fn tar_entry(path: Seq<char>, mode: u32, content: Seq<u8>) -> Option<Seq<u8>>;

/// Why an entry is refused, if it is: for a path that is held already the
/// caller gave bad input; for a path that the archive refuses the archive
/// says so.
pub open spec fn entry_refusal(
    paths: Seq<Seq<char>>,
    path: Seq<char>,
    mode: u32,
    content: Seq<u8>,
) -> Option<ErrorKind> {
    if paths.contains(path) {
        Some(ErrorKind::Validation)
    } else if tar_entry(path, mode, content) is None {
        Some(ErrorKind::Io)
    } else {
        None
    }
}

/// The two blocks of zero bytes that end an archive.
pub open spec fn tar_end() -> Seq<u8> {
    Seq::new(1024, |i: int| 0u8)
}

/// What a builder hands out when it is unwrapped: its bytes, ended by the two
/// zero blocks unless they were written before.
pub open spec fn tar_sealed(b: TarBuilder) -> Seq<u8> {
    if tar_finished(b) {
        tar_bytes(b)
    } else {
        tar_bytes(b) + tar_end()
    }
}

/// `tar::Builder::new` over an empty buffer: nothing is written and the
/// archive is not finished.
#[verifier::external_body]
fn builder_new() -> (b: TarBuilder)
    ensures
        tar_bytes(b) == Seq::<u8>::empty(),
        !tar_finished(b),
{
    TarBuilder { inner: tar::Builder::new(Vec::new()) }
}

/// `tar::Builder::append_data` with a fresh GNU header that carries `mode`
/// and the content's length. The path is checked before anything is
/// written: where it is refused the buffer stays as it was, and otherwise
/// the buffer grows by exactly the entry. Writing to a `Vec<u8>` does not
/// fail.
#[verifier::external_body]
fn builder_append(b: &mut TarBuilder, path: &str, mode: u32, content: &[u8]) -> (r: Result<
    (),
    std::io::Error,
>)
    ensures
        tar_finished(*final(b)) == tar_finished(*old(b)),
        match r {
            Ok(_) => tar_entry(path@, mode, content@) matches Some(e) && tar_bytes(*final(b))
                == tar_bytes(*old(b)) + e,
            Err(_) => tar_entry(path@, mode, content@) is None && tar_bytes(*final(b))
                == tar_bytes(*old(b)),
        },
{
    let mut header = tar::Header::new_gnu();
    header.set_mode(mode);
    header.set_size(content.len() as u64);
    b.inner.append_data(&mut header, path, content)
}

/// `tar::Builder::into_inner` on a `Vec<u8>`: the buffer comes back, ended by
/// two zero blocks unless the archive was finished before.
#[verifier::external_body]
fn builder_into_inner(b: TarBuilder) -> (r: Result<Vec<u8>, std::io::Error>)
    ensures
        match r {
            Ok(v) => v@ == tar_sealed(b),
            Err(_) => false,
        },
{
    b.inner.into_inner()
}

/// The `Display` text of a `std::io::Error`.
#[verifier::external_body]
fn io_error_text(e: &std::io::Error) -> String {
    format!("{}", e)
}

/// An append-only archive held in memory, with a record of the paths of its
/// entries.
pub struct Tarball {
    tar: TarBuilder,
    paths: Vec<String>,
}

impl Tarball {
    /// The archive's bytes so far, without the end of the archive.
    pub closed spec fn bytes(&self) -> Seq<u8> {
        tar_bytes(self.tar)
    }

    /// The paths of the entries, in the order in which they were added.
    pub closed spec fn entry_paths(&self) -> Seq<Seq<char>> {
        self.paths.deep_view()
    }

    /// No path is held twice, and the end of the archive is written only
    /// when the bytes are handed out: a tarball that this library made is
    /// always open for appends.
    pub closed spec fn wf(&self) -> bool {
        !tar_finished(self.tar) && distinct(self.paths.deep_view())
    }

    /// In a tarball no path is held twice.
    pub proof fn lemma_paths_distinct(&self)
        requires
            self.wf(),
        ensures
            distinct(self.entry_paths()),
    {
    }

    /// An empty archive.
    pub fn new() -> (t: Tarball)
        ensures
            t.wf(),
            t.bytes() == Seq::<u8>::empty(),
            t.entry_paths() == Seq::<Seq<char>>::empty(),
    {
        let t = Tarball { tar: builder_new(), paths: Vec::new() };
        assert(t.paths.deep_view() =~= Seq::<Seq<char>>::empty());
        t
    }

    /// Whether the tarball holds an entry at `path`.
    pub fn holds(&self, path: &str) -> (r: bool)
        ensures
            r == self.entry_paths().contains(path@),
    {
        is_listed(&self.paths, path)
    }

    /// Adds `content` as a regular file at `path` with the POSIX `mode`.
    ///
    /// A path that the tarball holds already is refused with an error of
    /// kind `Validation`. The archive itself refuses some paths (an absolute
    /// one, one with `..`, an empty one) with an error of kind `Io`. Where
    /// the path is refused nothing changes.
    pub fn append_file_bytes(&mut self, path: String, mode: u32, content: &[u8]) -> (r: Result<
        (),
        Error,
    >)
        requires
            old(self).wf(),
        ensures
            final(self).wf(),
            match r {
                Ok(_) => {
                    &&& entry_refusal(old(self).entry_paths(), path@, mode, content@) is None
                    &&& tar_entry(path@, mode, content@) matches Some(e) && final(self).bytes()
                        == old(self).bytes() + e
                    &&& final(self).entry_paths() == old(self).entry_paths().push(path@)
                },
                Err(e) => {
                    &&& entry_refusal(old(self).entry_paths(), path@, mode, content@) == Some(
                        e.kind,
                    )
                    &&& final(self).bytes() == old(self).bytes()
                    &&& final(self).entry_paths() == old(self).entry_paths()
                },
            },
    {
        if self.holds(path.as_str()) {
            let mut message = "the tarball holds an entry already at ".to_owned();
            message.append(path.as_str());
            return Err(Error::new(ErrorKind::Validation, message));
        }
        match builder_append(&mut self.tar, path.as_str(), mode, content) {
            Ok(_) => {
                self.paths.push(path);
                assert(self.paths.deep_view() =~= old(self).paths.deep_view().push(path@));
                assert(distinct(self.paths.deep_view())) by {
                    let before = old(self).paths.deep_view();
                    let after = self.paths.deep_view();
                    assert forall|a: int, b: int| 0 <= a < b < after.len() implies after[a]
                        != after[b] by {
                        if b < before.len() {
                            assert(before[a] != before[b]);
                        } else {
                            assert(before.contains(before[a]));
                        }
                    }
                }
                Ok(())
            },
            Err(e) => Err(Error::new(ErrorKind::Io, io_error_text(&e))),
        }
    }

    /// Ends the archive and hands out its bytes.
    pub fn into_tarball(self) -> (r: Result<Vec<u8>, Error>)
        requires
            self.wf(),
        ensures
            r matches Ok(v) && v@ == self.bytes() + tar_end(),
    {
        match builder_into_inner(self.tar) {
            Ok(v) => Ok(v),
            Err(e) => Err(Error::new(ErrorKind::Io, io_error_text(&e))),
        }
    }

    /// A readable description: the paths of the entries, one per line.
    pub fn describe(&self) -> (r: String)
        ensures
            r@ == "Tarball { "@ + crate::text::joined(self.entry_paths(), "\n"@) + " }"@,
    {
        let mut r = "Tarball { ".to_owned();
        let list = crate::text::join(&self.paths, "\n");
        r.append(list.as_str());
        r.append(" }");
        r
    }

    /// The paths of the entries, in the order in which they were added.
    pub fn paths(&self) -> (p: &Vec<String>)
        ensures
            p.deep_view() == self.entry_paths(),
    {
        &self.paths
    }
}

impl Default for Tarball {
    fn default() -> (t: Tarball)
        ensures
            t.wf(),
            t.bytes() == Seq::<u8>::empty(),
            t.entry_paths() == Seq::<Seq<char>>::empty(),
    {
        Tarball::new()
    }
}

} // verus!
