//! The source that a Dockerfile is assembled from, and how it is rendered.

use vstd::prelude::*;
use vstd::utf8::encode_utf8;
use crate::error::{Error, ErrorKind};

verus! {

/// Where the base of a Dockerfile comes from.
#[derive(Debug, Clone, PartialEq, Eq)]
pub enum Dockerfile {
    /// A prebuilt image, written as `name:tag`; rendered as `FROM name:tag`.
    NameTag(String),
    /// The host path of an existing Dockerfile, whose bytes are read when the
    /// Dockerfile is rendered.
    Path(String),
    /// The contents of a Dockerfile.
    Contents(String),
}

/// The first line of a Dockerfile that builds on a prebuilt image.
pub open spec fn from_line(name_tag: Seq<char>) -> Seq<char> {
    "FROM "@ + name_tag
}

/// The bytes of a Dockerfile: the bytes of its source, then for each appended
/// line a newline and the line's bytes.
pub open spec fn rendered(source: Seq<u8>, lines: Seq<Seq<char>>) -> Seq<u8>
    decreases lines.len(),
{
    if lines.len() == 0 {
        source
    } else {
        rendered(source, lines.drop_last()) + seq![10u8] + encode_utf8(lines.last())
    }
}

/// Rendering the lines one by one gives what rendering them at once gives:
/// a Dockerfile that is extended by `more` renders as its own rendering
/// extended by the rendering of `more`.
pub proof fn lemma_rendered_append(source: Seq<u8>, lines: Seq<Seq<char>>, more: Seq<Seq<char>>)
    ensures
        rendered(source, lines + more) == rendered(rendered(source, lines), more),
    decreases more.len(),
{
    if more.len() == 0 {
        assert(lines + more =~= lines);
    } else {
        lemma_rendered_append(source, lines, more.drop_last());
        assert((lines + more).drop_last() =~= lines + more.drop_last());
        assert((lines + more).last() == more.last());
    }
}

impl Dockerfile {
    /// A prebuilt image given as `name:tag`.
    pub fn name_tag(name_and_tag: &str) -> (d: Self)
        ensures
            d matches Dockerfile::NameTag(s) && s@ == name_and_tag@,
    {
        Dockerfile::NameTag(name_and_tag.to_owned())
    }

    /// The host path of an existing Dockerfile.
    pub fn path(path_to_dockerfile: &str) -> (d: Self)
        ensures
            d matches Dockerfile::Path(s) && s@ == path_to_dockerfile@,
    {
        Dockerfile::Path(path_to_dockerfile.to_owned())
    }

    /// The contents of a Dockerfile.
    pub fn contents(contents_of_dockerfile: &str) -> (d: Self)
        ensures
            d matches Dockerfile::Contents(s) && s@ == contents_of_dockerfile@,
    {
        Dockerfile::Contents(contents_of_dockerfile.to_owned())
    }

    /// A copy of the source.
    pub fn duplicate(&self) -> (d: Self)
        ensures
            d == *self,
    {
        match self {
            Dockerfile::NameTag(s) => Dockerfile::NameTag(s.clone()),
            Dockerfile::Path(s) => Dockerfile::Path(s.clone()),
            Dockerfile::Contents(s) => Dockerfile::Contents(s.clone()),
        }
    }

    /// Whether an image has to be built before a container can be created.
    pub open spec fn spec_needs_build(&self) -> bool {
        !(self is NameTag)
    }

    /// Whether an image has to be built before a container can be created.
    #[verifier::when_used_as_spec(spec_needs_build)]
    pub fn needs_build(&self) -> (b: bool)
        ensures
            b == self.spec_needs_build(),
    {
        match self {
            Dockerfile::NameTag(_) => false,
            _ => true,
        }
    }

    /// The bytes of the source, given what was read from the host where the
    /// source is a path.
    pub open spec fn spec_source_bytes(&self, file: Option<Seq<u8>>) -> Option<Seq<u8>> {
        match self {
            Dockerfile::NameTag(nt) => Some(encode_utf8(from_line(nt@))),
            Dockerfile::Path(_) => file,
            Dockerfile::Contents(c) => Some(encode_utf8(c@)),
        }
    }

    /// The bytes that the rendering of a Dockerfile starts with. For a path
    /// these are the bytes of the file at that path, which the caller has
    /// read; without them the error is of kind `Io`.
    pub fn source_bytes(&self, file: Option<Vec<u8>>) -> (r: Result<Vec<u8>, Error>)
        ensures
            match r {
                Ok(v) => self.spec_source_bytes(
                    match file {
                        Some(f) => Some(f@),
                        None => None,
                    },
                ) == Some(v@),
                Err(e) => self is Path && file is None && e.kind == ErrorKind::Io,
            },
    {
        match self {
            Dockerfile::NameTag(nt) => {
                let mut line = "FROM ".to_owned();
                line.append(nt.as_str());
                Ok(line.as_str().as_bytes_vec())
            },
            Dockerfile::Path(p) => match file {
                Some(f) => Ok(f),
                None => {
                    let mut message = "the Dockerfile was not read: ".to_owned();
                    message.append(p.as_str());
                    Err(Error::new(ErrorKind::Io, message))
                },
            },
            Dockerfile::Contents(c) => Ok(c.as_str().as_bytes_vec()),
        }
    }
}

/// Adds to `out` a newline and the bytes of each line.
pub fn render_lines(out: &mut Vec<u8>, lines: &Vec<String>)
    ensures
        final(out)@ == rendered(old(out)@, lines.deep_view()),
{
    let mut i: usize = 0;
    assert(lines.deep_view().take(0) =~= Seq::<Seq<char>>::empty());
    while i < lines.len()
        invariant
            i <= lines.len(),
            out@ == rendered(old(out)@, lines.deep_view().take(i as int)),
        decreases lines.len() - i,
    {
        out.push(10u8);
        let mut bytes = lines[i].as_str().as_bytes_vec();
        out.append(&mut bytes);
        i += 1;
        assert(lines.deep_view().take(i as int).drop_last() =~= lines.deep_view().take(i - 1));
        assert(lines.deep_view().take(i as int).last() == lines[i - 1]@);
    }
    assert(lines.deep_view().take(i as int) =~= lines.deep_view());
}

} // verus!
