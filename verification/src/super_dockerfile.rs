//! The assembler of a Dockerfile and of the build context that goes with it.

use vstd::prelude::*;
use crate::bootstrap::MuslPlan;
use crate::dockerfile::{render_lines, rendered, Dockerfile};
use crate::error::{Error, ErrorKind};
use crate::image::{ImageBuildOptions, SuperImage};
use crate::paths::{join_path, joined_path};
use crate::tarball::{entry_refusal, tar_end, tar_entry, Tarball};
use crate::text::{
    first_index_of, flattened, join, joined, lemma_concat_contains, split_at_first, split_once,
    starts_with,
};

verus! {

/// The name under which the rendered Dockerfile is put into the build context.
pub const DOCKER_FILE_NAME: &'static str = "./super.dockerfile";

/// The POSIX mode given to the rendered Dockerfile.
pub const DOCKER_FILE_MODE: u32 = 0o644;

/// The POSIX mode that inline contents get where the caller chose none.
pub const DEFAULT_CONTENT_MODE: u32 = 0o777;

/// One file that is copied into an image: the path under which it enters the
/// build context, the path in the image, its mode and its bytes.
#[derive(Debug, Clone, PartialEq, Eq)]
pub struct ContextCopy {
    pub src: String,
    pub dst: String,
    pub mode: u32,
    pub content: Vec<u8>,
}

/// A `ContextCopy` as plain values.
pub struct CopyView {
    pub src: Seq<char>,
    pub dst: Seq<char>,
    pub mode: u32,
    pub content: Seq<u8>,
}

impl View for ContextCopy {
    type V = CopyView;

    open spec fn view(&self) -> CopyView {
        CopyView { src: self.src@, dst: self.dst@, mode: self.mode, content: self.content@ }
    }
}

/// The copies as plain values.
pub open spec fn copy_views(copies: Seq<ContextCopy>) -> Seq<CopyView> {
    copies.map_values(|c: ContextCopy| c@)
}

/// The instruction that copies `src` of the build context to `dst` in the image.
pub open spec fn copy_line(src: Seq<char>, dst: Seq<char>) -> Seq<char> {
    "COPY "@ + src + " "@ + dst
}

/// The instructions for the copies, in order.
pub open spec fn copy_lines(copies: Seq<CopyView>) -> Seq<Seq<char>> {
    copies.map_values(|c: CopyView| copy_line(c.src, c.dst))
}

/// The paths under which the copies enter the build context, in order.
pub open spec fn copy_paths(copies: Seq<CopyView>) -> Seq<Seq<char>> {
    copies.map_values(|c: CopyView| c.src)
}

/// Why the copies are refused, if they are: the reason for the first of them
/// that is refused when the copies are added one after the other to a build
/// context that holds `paths`.
pub open spec fn refusal(paths: Seq<Seq<char>>, copies: Seq<CopyView>) -> Option<ErrorKind>
    decreases copies.len(),
{
    if copies.len() == 0 {
        None
    } else {
        let c = copies.first();
        match entry_refusal(paths, c.src, c.mode, c.content) {
            Some(kind) => Some(kind),
            None => refusal(paths.push(c.src), copies.drop_first()),
        }
    }
}

/// Whether the copy at position `k` is taken when its turn comes.
pub open spec fn fits(paths: Seq<Seq<char>>, copies: Seq<CopyView>, k: int) -> bool {
    entry_refusal(
        paths + copy_paths(copies.take(k)),
        copies[k].src,
        copies[k].mode,
        copies[k].content,
    ) is None
}

/// The copies are refused from a position on as they are refused as a whole:
/// where the first `k` of them are taken, the refusal of all is the refusal
/// of the rest by the build context that holds those first `k`.
pub proof fn lemma_refusal_from(paths: Seq<Seq<char>>, copies: Seq<CopyView>, k: int)
    requires
        0 <= k <= copies.len(),
        forall|j: int| 0 <= j < k ==> fits(paths, copies, j),
    ensures
        refusal(paths, copies) == refusal(paths + copy_paths(copies.take(k)), copies.skip(k)),
    decreases k,
{
    if k == 0 {
        assert(copies.take(0) =~= Seq::<CopyView>::empty());
        assert(paths + copy_paths(copies.take(0)) =~= paths);
        assert(copies.skip(0) =~= copies);
    } else {
        lemma_refusal_from(paths, copies, k - 1);
        let held = paths + copy_paths(copies.take(k - 1));
        let rest = copies.skip(k - 1);
        assert(rest.first() == copies[k - 1]);
        assert(rest.drop_first() =~= copies.skip(k));
        assert(fits(paths, copies, k - 1));
        assert(copies.take(k).drop_last() =~= copies.take(k - 1));
        assert(copy_paths(copies.take(k)) =~= copy_paths(copies.take(k - 1)).push(
            copies[k - 1].src,
        ));
        assert(held.push(copies[k - 1].src) =~= paths + copy_paths(copies.take(k)));
    }
}

/// The archive's bytes after the copies have been added to `bytes`.
pub open spec fn archived(bytes: Seq<u8>, copies: Seq<CopyView>) -> Seq<u8>
    decreases copies.len(),
{
    if copies.len() == 0 {
        bytes
    } else {
        let c = copies.last();
        match tar_entry(c.src, c.mode, c.content) {
            Some(e) => archived(bytes, copies.drop_last()) + e,
            None => archived(bytes, copies.drop_last()),
        }
    }
}

/// The copies that inline contents stand for: each goes to the path that it
/// comes from, with mode `0o777` where none was chosen.
pub open spec fn content_copies(v: Seq<(String, Option<u32>, Vec<u8>)>) -> Seq<CopyView> {
    Seq::new(
        v.len(),
        |i: int|
            CopyView {
                src: v[i].0@,
                dst: v[i].0@,
                mode: match v[i].1 {
                    Some(m) => m,
                    None => DEFAULT_CONTENT_MODE,
                },
                content: v[i].2@,
            },
    )
}

/// The copies that pairs of host path and image path stand for, with the
/// modes and bytes that were read from the host.
pub open spec fn path_copies(
    v: Seq<(String, String)>,
    files: Seq<(u32, Vec<u8>)>,
    build_path: Option<Seq<char>>,
) -> Seq<CopyView> {
    Seq::new(
        v.len(),
        |i: int|
            CopyView {
                src: resolved_from(v[i].0@, build_path),
                dst: v[i].1@,
                mode: files[i].0,
                content: files[i].1@,
            },
    )
}

/// The one copy that an entrypoint stands for.
pub open spec fn entrypoint_copy(
    entrypoint: (String, String),
    file: (u32, Vec<u8>),
    build_path: Option<Seq<char>>,
) -> Seq<CopyView> {
    seq![
        CopyView {
            src: resolved_from(entrypoint.0@, build_path),
            dst: entrypoint.1@,
            mode: file.0,
            content: file.1@,
        },
    ]
}

/// The host path of the binary that becomes the entrypoint of an image with
/// a MUSL libc.
pub open spec fn musl_entrypoint(plan: MuslPlan, binary: String) -> String {
    match plan {
        MuslPlan::UseCurrent => binary,
        MuslPlan::Build { command, entrypoint } => entrypoint,
    }
}

/// The view of optional bytes.
pub open spec fn bytes_view(b: Option<Vec<u8>>) -> Option<Seq<u8>> {
    match b {
        Some(b) => Some(b@),
        None => None,
    }
}

/// Pairs of strings as pairs of texts.
pub open spec fn labels_view(pairs: Seq<(String, String)>) -> Seq<(Seq<char>, Seq<char>)> {
    pairs.map_values(|p: (String, String)| (p.0@, p.1@))
}

/// One argument of an `ENTRYPOINT` in its JSON form, with the comma before it.
pub open spec fn quoted_arg(arg: Seq<char>) -> Seq<char> {
    ", \""@ + arg + "\""@
}

/// The instruction that makes `dst` the entrypoint, with its arguments.
pub open spec fn entrypoint_line(dst: Seq<char>, args: Seq<Seq<char>>) -> Seq<char> {
    "ENTRYPOINT [\""@ + dst + "\""@ + flattened(args.map_values(|a: Seq<char>| quoted_arg(a)))
        + "]"@
}

/// The instruction for a health check.
pub open spec fn healthcheck_line(opts: Seq<Seq<char>>, command: Seq<Seq<char>>) -> Seq<char> {
    "HEALTHCHECK "@ + joined(opts, " "@) + " CMD "@ + joined(command, " "@)
}

/// The key and the value of the label that an image name gives: the parts
/// before and after the first colon, or the whole name and nothing.
pub open spec fn label_of(image_name: Seq<char>) -> (Seq<char>, Seq<char>) {
    split_once(image_name, ':')
}

/// The path of a host file and the path in the image that a pair of paths
/// stands for: a source is taken relative to the build path where one is set.
pub open spec fn resolved_from(from: Seq<char>, build_path: Option<Seq<char>>) -> Seq<char> {
    match build_path {
        Some(b) => joined_path(b, from),
        None => from,
    }
}

/// Resolves the source of a copy against the build path and hands the
/// destination on.
pub fn resolve_from_to(from: String, to: String, build_path: Option<&String>) -> (r: (
    String,
    String,
))
    ensures
        r.0@ == resolved_from(
            from@,
            match build_path {
                Some(b) => Some(b@),
                None => None,
            },
        ),
        r.1@ == to@,
{
    let from = match build_path {
        Some(b) => join_path(b.as_str(), from.as_str()),
        None => from,
    };
    (from, to)
}

/// Describes all the details needed to build an image through the Docker API:
/// a base, the instructions appended to it, and the files of the build context.
pub struct SuperDockerfile {
    base: Dockerfile,
    lines: Vec<String>,
    tarball: Tarball,
    build_path: Option<String>,
    image_name: Option<String>,
    build_opts: ImageBuildOptions,
}

/// A `SuperDockerfile` as plain values.
pub struct SuperDockerfileView {
    /// The base definition for the Dockerfile.
    pub base: Dockerfile,
    /// The appended instructions.
    pub lines: Seq<Seq<char>>,
    /// The paths of the entries of the build context.
    pub entry_paths: Seq<Seq<char>>,
    /// The bytes of the build context so far.
    pub archive: Seq<u8>,
    pub build_path: Option<Seq<char>>,
    pub image_name: Option<Seq<char>>,
    pub build_opts: ImageBuildOptions,
}

/// The view of an optional string.
pub open spec fn opt_view(s: Option<String>) -> Option<Seq<char>> {
    match s {
        Some(s) => Some(s@),
        None => None,
    }
}

impl View for SuperDockerfile {
    type V = SuperDockerfileView;

    closed spec fn view(&self) -> SuperDockerfileView {
        SuperDockerfileView {
            base: self.base,
            lines: self.lines.deep_view(),
            entry_paths: self.tarball.entry_paths(),
            archive: self.tarball.bytes(),
            build_path: opt_view(self.build_path),
            image_name: opt_view(self.image_name),
            build_opts: self.build_opts,
        }
    }
}

impl SuperDockerfile {
    /// The build context is open for appends.
    pub closed spec fn wf(&self) -> bool {
        self.tarball.wf()
    }

    /// A Dockerfile on `base` without further instructions and with an empty
    /// build context.
    pub fn new(base: Dockerfile, image_name: Option<String>) -> (r: Self)
        ensures
            r.wf(),
            r@.base == base,
            r@.lines == Seq::<Seq<char>>::empty(),
            r@.entry_paths == Seq::<Seq<char>>::empty(),
            r@.archive == Seq::<u8>::empty(),
            r@.build_path is None,
            r@.image_name == opt_view(image_name),
            r@.build_opts.is_default(),
            copies_recorded(r@),
    {
        let r = SuperDockerfile {
            base,
            lines: Vec::new(),
            tarball: Tarball::new(),
            build_path: None,
            image_name,
            build_opts: ImageBuildOptions::default(),
        };
        assert(r.lines.deep_view() =~= Seq::<Seq<char>>::empty());
        r
    }

    /// A Dockerfile on `base` without further instructions, over a build
    /// context that holds entries already.
    pub fn new_with_tar(base: Dockerfile, image_name: Option<String>, tarball: Tarball) -> (r: Self)
        requires
            tarball.wf(),
        ensures
            r.wf(),
            r@.base == base,
            r@.lines == Seq::<Seq<char>>::empty(),
            r@.entry_paths == tarball.entry_paths(),
            r@.archive == tarball.bytes(),
            r@.build_path is None,
            r@.image_name == opt_view(image_name),
            r@.build_opts.is_default(),
    {
        let r = SuperDockerfile {
            base,
            lines: Vec::new(),
            tarball,
            build_path: None,
            image_name,
            build_opts: ImageBuildOptions::default(),
        };
        assert(r.lines.deep_view() =~= Seq::<Seq<char>>::empty());
        r
    }

    /// The build path is the last argument in a docker build command.
    ///
    /// If you are copying relative files, they will be copied relative to
    /// the current `build_path`. Specify this before copying to have paths
    /// resolved according to it.
    pub fn with_build_path(self, build_path: String) -> (r: Self)
        ensures
            r.wf() == self.wf(),
            r@ == (SuperDockerfileView { build_path: Some(build_path@), ..self@ }),
    {
        let mut r = self;
        r.build_path = Some(build_path);
        r
    }

    /// Set the build options
    pub fn with_build_opts(self, build_opts: ImageBuildOptions) -> (r: Self)
        ensures
            r.wf() == self.wf(),
            r@ == (SuperDockerfileView { build_opts, ..self@ }),
    {
        let mut r = self;
        r.build_opts = build_opts;
        r
    }

    /// Add instructions to the underlying docker file; each becomes a line
    /// of its own.
    pub fn append_dockerfile_instructions(self, v: Vec<String>) -> (r: Self)
        ensures
            r.wf() == self.wf(),
            r@ == (SuperDockerfileView { lines: self@.lines + v.deep_view(), ..self@ }),
            copies_recorded(self@) && no_copy_lines(v.deep_view()) ==> copies_recorded(r@),
    {
        let mut r = self;
        r.append_dockerfile_lines_mut(v);
        r
    }

    /// Add instructions to the underlying docker file; each becomes a line
    /// of its own.
    pub fn append_dockerfile_lines_mut(&mut self, v: Vec<String>)
        ensures
            final(self).wf() == old(self).wf(),
            final(self)@ == (SuperDockerfileView {
                lines: old(self)@.lines + v.deep_view(),
                ..old(self)@
            }),
            copies_recorded(old(self)@) && no_copy_lines(v.deep_view()) ==> copies_recorded(
                final(self)@,
            ),
    {
        let mut v = v;
        let ghost added = v.deep_view();
        self.lines.append(&mut v);
        assert(self.lines.deep_view() =~= old(self).lines.deep_view() + added);
        proof {
            if no_copy_lines(added) {
                lemma_other_lines(old(self)@.lines, added);
            }
        }
    }

    /// The base definition.
    pub fn base(&self) -> (r: &Dockerfile)
        ensures
            *r == self@.base,
    {
        &self.base
    }

    /// The build path, where one is set.
    pub fn build_path(&self) -> (r: Option<&String>)
        ensures
            match r {
                Some(p) => self@.build_path == Some(p@),
                None => self@.build_path is None,
            },
    {
        self.build_path.as_ref()
    }

    /// The appended instructions.
    pub fn lines(&self) -> (r: &Vec<String>)
        ensures
            r.deep_view() == self@.lines,
    {
        &self.lines
    }

    /// The paths of the entries of the build context.
    pub fn tarball_paths(&self) -> (r: &Vec<String>)
        ensures
            r.deep_view() == self@.entry_paths,
    {
        self.tarball.paths()
    }

    /// The bytes of the Dockerfile over the given bytes of its source.
    pub fn render(&self, source: Vec<u8>) -> (r: Vec<u8>)
        ensures
            r@ == rendered(source@, self@.lines),
    {
        let mut out = source;
        render_lines(&mut out, &self.lines);
        out
    }

    /// Adds the copies to the Dockerfile and to the build context, all of
    /// them or none: each becomes a `COPY` instruction and an entry of the
    /// archive under its source path.
    ///
    /// A copy is refused where the build context holds its source path
    /// already (the error is of kind `Validation`), and where the archive
    /// refuses that path (of kind `Io`). Where one of the copies is refused,
    /// nothing changes.
    pub fn copy_all_mut(&mut self, copies: Vec<ContextCopy>) -> (r: Result<(), Error>)
        requires
            old(self).wf(),
        ensures
            final(self).wf(),
            match r {
                Ok(_) => {
                    &&& refusal(old(self)@.entry_paths, copy_views(copies@)) is None
                    &&& final(self)@ == (SuperDockerfileView {
                        lines: old(self)@.lines + copy_lines(copy_views(copies@)),
                        entry_paths: old(self)@.entry_paths + copy_paths(copy_views(copies@)),
                        archive: archived(old(self)@.archive, copy_views(copies@)),
                        ..old(self)@
                    })
                    &&& copies_recorded(old(self)@) && spaceless(copy_views(copies@))
                        ==> copies_recorded(final(self)@)
                },
                Err(e) => {
                    &&& refusal(old(self)@.entry_paths, copy_views(copies@)) == Some(e.kind)
                    &&& *final(self) == *old(self)
                },
            },
    {
        let ghost views = copy_views(copies@);
        let ghost held = self@.entry_paths;
        // First see whether each of them is taken, on an archive of its own:
        // what the archive takes depends on the entry alone.
        let mut probe = Tarball::new();
        let mut i: usize = 0;
        assert(copy_paths(views.take(0)) =~= Seq::<Seq<char>>::empty());
        while i < copies.len()
            invariant
                i <= copies.len(),
                probe.wf(),
                self.wf(),
                *self == *old(self),
                held == self@.entry_paths,
                views == copy_views(copies@),
                probe.entry_paths() == copy_paths(views.take(i as int)),
                forall|j: int| 0 <= j < i ==> fits(held, views, j),
            decreases copies.len() - i,
        {
            let c = &copies[i];
            let ghost so_far = copy_paths(views.take(i as int));
            proof {
                lemma_refusal_from(held, views, i as int);
                assert(views.skip(i as int).first() == views[i as int]);
                lemma_concat_contains(held, so_far, views[i as int].src);
            }
            if self.tarball.holds(c.src.as_str()) {
                let mut message = "the build context holds an entry already at ".to_owned();
                message.append(c.src.as_str());
                return Err(Error::new(ErrorKind::Validation, message));
            }
            match probe.append_file_bytes(c.src.clone(), c.mode, c.content.as_slice()) {
                Ok(_) => {},
                Err(e) => {
                    return Err(e);
                },
            }
            i += 1;
            proof {
                assert(views.take(i as int).drop_last() =~= views.take(i - 1));
                assert(copy_paths(views.take(i as int)) =~= so_far.push(views[i - 1].src));
            }
        }
        proof {
            lemma_refusal_from(held, views, views.len() as int);
            assert(views.skip(views.len() as int) =~= Seq::<CopyView>::empty());
        }
        let mut copies = copies;
        let mut k: usize = 0;
        assert(views.take(0) =~= Seq::<CopyView>::empty());
        assert(copy_lines(views.take(0)) =~= Seq::<Seq<char>>::empty());
        assert(self.lines.deep_view() + Seq::<Seq<char>>::empty() =~= self.lines.deep_view());
        assert(self.tarball.entry_paths() + Seq::<Seq<char>>::empty()
            =~= self.tarball.entry_paths());
        while k < copies.len()
            invariant
                k <= copies.len(),
                views == copy_views(copies@),
                held == old(self)@.entry_paths,
                forall|j: int| 0 <= j < views.len() ==> fits(held, views, j),
                self.tarball.wf(),
                self.lines.deep_view() == old(self).lines.deep_view() + copy_lines(
                    views.take(k as int),
                ),
                self.tarball.entry_paths() == held + copy_paths(views.take(k as int)),
                self.tarball.bytes() == archived(old(self).tarball.bytes(), views.take(k as int)),
                self.base == old(self).base,
                self.build_path == old(self).build_path,
                self.image_name == old(self).image_name,
                self.build_opts == old(self).build_opts,
            decreases copies.len() - k,
        {
            let c = &copies[k];
            let mut line = "COPY ".to_owned();
            line.append(c.src.as_str());
            line.append(" ");
            line.append(c.dst.as_str());
            assert(line@ == copy_line(views[k as int].src, views[k as int].dst));
            let ghost before_lines = self.lines.deep_view();
            match self.tarball.append_file_bytes(c.src.clone(), c.mode, c.content.as_slice()) {
                Ok(_) => {},
                Err(_) => {
                    // The entry was taken a moment ago.
                    assert(fits(held, views, k as int));
                    assert(false);
                },
            }
            self.lines.push(line);
            k += 1;
            proof {
                let now = views.take(k as int);
                assert(now.drop_last() =~= views.take(k - 1));
                assert(now.last() == views[k - 1]);
                assert(copy_lines(now) =~= copy_lines(views.take(k - 1)).push(
                    copy_line(views[k - 1].src, views[k - 1].dst),
                ));
                assert(copy_paths(now) =~= copy_paths(views.take(k - 1)).push(views[k - 1].src));
                assert(self.lines.deep_view() =~= before_lines.push(line@));
                assert(self.lines.deep_view() =~= old(self).lines.deep_view() + copy_lines(now));
                assert(self.tarball.entry_paths() =~= held + copy_paths(now));
            }
        }
        assert(views.take(k as int) =~= views);
        proof {
            if copies_recorded(old(self)@) && spaceless(views) {
                lemma_copies_stay_recorded(old(self)@, views, self@);
            }
        }
        Ok(())
    }

    /// Adds a `COPY` instruction to the dockerfile for each item, and its
    /// content to the build context. The items are of the form
    /// `(destination_path, mode, content)`, where the mode is the unix access
    /// mode and defaults to `0o777`. Either all of them are added or the
    /// error of the first refusal is returned (see `copy_all_mut`).
    pub fn copying_from_contents(self, v: Vec<(String, Option<u32>, Vec<u8>)>) -> (r: Result<
        Self,
        Error,
    >)
        requires
            self.wf(),
        ensures
            match r {
                Ok(d) => {
                    &&& d.wf()
                    &&& refusal(self@.entry_paths, content_copies(v@)) is None
                    &&& d@ == (SuperDockerfileView {
                        lines: self@.lines + copy_lines(content_copies(v@)),
                        entry_paths: self@.entry_paths + copy_paths(content_copies(v@)),
                        archive: archived(self@.archive, content_copies(v@)),
                        ..self@
                    })
                    &&& copies_recorded(self@) && spaceless(content_copies(v@)) ==> copies_recorded(
                        d@,
                    )
                },
                Err(e) => refusal(self@.entry_paths, content_copies(v@)) == Some(e.kind),
            },
    {
        let mut copies: Vec<ContextCopy> = Vec::new();
        let mut i: usize = 0;
        assert(content_copies(v@).take(0) =~= copy_views(copies@));
        while i < v.len()
            invariant
                i <= v.len(),
                copy_views(copies@) == content_copies(v@).take(i as int),
            decreases v.len() - i,
        {
            let item = &v[i];
            let mode = match item.1 {
                Some(m) => m,
                None => DEFAULT_CONTENT_MODE,
            };
            let content = item.2.clone();
            assert(content@ =~= item.2@);
            let ghost before = copy_views(copies@);
            let copy = ContextCopy { src: item.0.clone(), dst: item.0.clone(), mode, content };
            copies.push(copy);
            i += 1;
            assert(copy@ == content_copies(v@)[i - 1]);
            assert(copy_views(copies@) =~= before.push(copy@));
            assert(copy_views(copies@) =~= content_copies(v@).take(i as int));
        }
        assert(content_copies(v@).take(i as int) =~= content_copies(v@));
        let mut d = self;
        match d.copy_all_mut(copies) {
            Ok(_) => Ok(d),
            Err(e) => Err(e),
        }
    }

    /// The host paths whose files `copying_from_paths` needs for the items,
    /// in order: the sources, resolved against the build path.
    pub fn sources(&self, v: &Vec<(String, String)>) -> (r: Vec<String>)
        ensures
            r.deep_view() == Seq::new(
                v@.len(),
                |i: int| resolved_from(v@[i].0@, self@.build_path),
            ),
    {
        let mut r: Vec<String> = Vec::new();
        let mut i: usize = 0;
        while i < v.len()
            invariant
                i <= v.len(),
                r.deep_view() == Seq::new(
                    i as nat,
                    |j: int| resolved_from(v@[j].0@, self@.build_path),
                ),
            decreases v.len() - i,
        {
            let (from, _) = resolve_from_to(
                v[i].0.clone(),
                v[i].1.clone(),
                self.build_path.as_ref(),
            );
            let ghost before = r.deep_view();
            r.push(from);
            i += 1;
            assert(r.deep_view() =~= before.push(from@));
            assert(r.deep_view() =~= Seq::new(
                i as nat,
                |j: int| resolved_from(v@[j].0@, self@.build_path),
            ));
        }
        r
    }

    /// Adds a `COPY` instruction to the dockerfile for each item, and the host
    /// file to the build context. The items are of the form
    /// `(host_source_path, image_destination_path)`; `files` holds, for each
    /// item in order, the mode and the bytes of the file at the path that
    /// `sources` gives. Once this has returned, what is built is what was read.
    ///
    /// Either all of them are added or the error is returned: of kind
    /// `Validation` where `files` and the items differ in number, and
    /// otherwise that of the first refusal (see `copy_all_mut`).
    pub fn copying_from_paths(self, v: Vec<(String, String)>, files: Vec<(u32, Vec<u8>)>) -> (r:
        Result<Self, Error>)
        requires
            self.wf(),
        ensures
            match r {
                Ok(d) => {
                    &&& d.wf()
                    &&& v@.len() == files@.len()
                    &&& refusal(
                        self@.entry_paths,
                        path_copies(v@, files@, self@.build_path),
                    ) is None
                    &&& d@ == (SuperDockerfileView {
                        lines: self@.lines + copy_lines(path_copies(v@, files@, self@.build_path)),
                        entry_paths: self@.entry_paths + copy_paths(
                            path_copies(v@, files@, self@.build_path),
                        ),
                        archive: archived(
                            self@.archive,
                            path_copies(v@, files@, self@.build_path),
                        ),
                        ..self@
                    })
                    &&& copies_recorded(self@) && spaceless(
                        path_copies(v@, files@, self@.build_path),
                    ) ==> copies_recorded(d@)
                },
                Err(e) => if v@.len() != files@.len() {
                    e.kind == ErrorKind::Validation
                } else {
                    refusal(self@.entry_paths, path_copies(v@, files@, self@.build_path))
                        == Some(e.kind)
                },
            },
    {
        if v.len() != files.len() {
            return Err(
                Error::new(
                    ErrorKind::Validation,
                    "copying_from_paths -> the files that were read do not match the items".to_owned(),
                ),
            );
        }
        let ghost want = path_copies(v@, files@, self@.build_path);
        let mut copies: Vec<ContextCopy> = Vec::new();
        let mut i: usize = 0;
        assert(want.take(0) =~= copy_views(copies@));
        while i < v.len()
            invariant
                i <= v.len(),
                v.len() == files.len(),
                want == path_copies(v@, files@, self@.build_path),
                copy_views(copies@) == want.take(i as int),
            decreases v.len() - i,
        {
            let (from, to) = resolve_from_to(
                v[i].0.clone(),
                v[i].1.clone(),
                self.build_path.as_ref(),
            );
            let content = files[i].1.clone();
            assert(content@ =~= files[i as int].1@);
            let ghost before = copy_views(copies@);
            let copy = ContextCopy { src: from, dst: to, mode: files[i].0, content };
            copies.push(copy);
            i += 1;
            assert(copy@ == want[i - 1]);
            assert(copy_views(copies@) =~= before.push(copy@));
            assert(copy_views(copies@) =~= want.take(i as int));
        }
        assert(want.take(i as int) =~= want);
        let mut d = self;
        match d.copy_all_mut(copies) {
            Ok(_) => Ok(d),
            Err(e) => Err(e),
        }
    }

    /// Add an `ENTRYPOINT` instruction and append its file to the build
    /// context.
    ///
    /// The entrypoint parameter is of the format (from, to), and `file` holds
    /// the mode and the bytes of the host file at the path that `sources`
    /// gives for it. The arguments, if any, follow the binary in the JSON form
    /// of the instruction.
    pub fn with_entrypoint(
        self,
        entrypoint: (String, String),
        file: (u32, Vec<u8>),
        entrypoint_args: Vec<String>,
    ) -> (r: Result<Self, Error>)
        requires
            self.wf(),
        ensures
            match r {
                Ok(d) => {
                    &&& d.wf()
                    &&& refusal(
                        self@.entry_paths,
                        entrypoint_copy(entrypoint, file, self@.build_path),
                    ) is None
                    &&& d@ == (SuperDockerfileView {
                        lines: (self@.lines + copy_lines(
                            entrypoint_copy(entrypoint, file, self@.build_path),
                        )).push(entrypoint_line(entrypoint.1@, entrypoint_args.deep_view())),
                        entry_paths: self@.entry_paths + copy_paths(
                            entrypoint_copy(entrypoint, file, self@.build_path),
                        ),
                        archive: archived(
                            self@.archive,
                            entrypoint_copy(entrypoint, file, self@.build_path),
                        ),
                        ..self@
                    })
                    &&& copies_recorded(self@) && spaceless(
                        entrypoint_copy(entrypoint, file, self@.build_path),
                    ) ==> copies_recorded(d@)
                },
                Err(e) => refusal(
                    self@.entry_paths,
                    entrypoint_copy(entrypoint, file, self@.build_path),
                ) == Some(e.kind),
            },
    {
        let mut line = "ENTRYPOINT [\"".to_owned();
        line.append(entrypoint.1.as_str());
        line.append("\"");
        let ghost head = line@;
        let ghost quoted = entrypoint_args.deep_view().map_values(|a: Seq<char>| quoted_arg(a));
        let mut i: usize = 0;
        assert(quoted.take(0) =~= Seq::<Seq<char>>::empty());
        while i < entrypoint_args.len()
            invariant
                i <= entrypoint_args.len(),
                quoted == entrypoint_args.deep_view().map_values(|a: Seq<char>| quoted_arg(a)),
                line@ == head + flattened(quoted.take(i as int)),
            decreases entrypoint_args.len() - i,
        {
            let ghost before = line@;
            line.append(", \"");
            line.append(entrypoint_args[i].as_str());
            line.append("\"");
            i += 1;
            proof {
                assert(quoted.take(i as int).drop_last() =~= quoted.take(i - 1));
                assert(quoted.take(i as int).last() == quoted_arg(entrypoint_args[i - 1]@));
                assert(line@ =~= before + quoted_arg(entrypoint_args[i - 1]@));
                assert(line@ =~= head + flattened(quoted.take(i as int)));
            }
        }
        assert(quoted.take(i as int) =~= quoted);
        line.append("]");
        assert(line@ =~= entrypoint_line(entrypoint.1@, entrypoint_args.deep_view()));
        let ghost copies = entrypoint_copy(entrypoint, file, self@.build_path);
        let mut v: Vec<(String, String)> = Vec::new();
        v.push(entrypoint);
        let mut files: Vec<(u32, Vec<u8>)> = Vec::new();
        files.push(file);
        assert(path_copies(v@, files@, self@.build_path) =~= copies);
        match self.copying_from_paths(v, files) {
            Ok(d) => {
                let mut d = d;
                let ghost copied = d@;
                let ghost before = d.lines.deep_view();
                d.lines.push(line);
                assert(d.lines.deep_view() =~= before.push(line@));
                proof {
                    reveal_strlit("ENTRYPOINT [\"");
                    lemma_not_a_copy(line@);
                    assert(before.push(line@) =~= before + seq![line@]);
                    lemma_other_lines(before, seq![line@]);
                    assert(copy_sources(d@.lines) == copy_sources(copied.lines));
                    assert(d@.entry_paths == copied.entry_paths);
                }
                Ok(d)
            },
            Err(e) => Err(e),
        }
    }

    /// Adds a `HEALTHCHECK` instruction with the given options and command.
    pub fn with_healthcheck(self, opts: Vec<String>, command: Vec<String>) -> (r: Self)
        ensures
            r.wf() == self.wf(),
            r@ == (SuperDockerfileView {
                lines: self@.lines.push(healthcheck_line(opts.deep_view(), command.deep_view())),
                ..self@
            }),
            copies_recorded(self@) ==> copies_recorded(r@),
    {
        let mut line = "HEALTHCHECK ".to_owned();
        let o = join(&opts, " ");
        line.append(o.as_str());
        line.append(" CMD ");
        let c = join(&command, " ");
        line.append(c.as_str());
        let mut r = self;
        r.lines.push(line);
        assert(r.lines.deep_view() =~= self.lines.deep_view().push(line@));
        proof {
            reveal_strlit("HEALTHCHECK ");
            lemma_not_a_copy(line@);
            assert(self@.lines.push(line@) =~= self@.lines + seq![line@]);
            lemma_other_lines(self@.lines, seq![line@]);
        }
        r
    }

    /// Make the currently running binary the image's entrypoint: `with_entrypoint`
    /// on the path of the running binary, which the caller has asked the
    /// system for and read.
    ///
    /// This is useful for defining a complete test using a single rust file by
    /// traversing through different branches of the code using the
    /// entrypoint arguments.
    pub fn bootstrap(
        self,
        current_exe: String,
        file: (u32, Vec<u8>),
        to: String,
        entrypoint_args: Vec<String>,
    ) -> (r: Result<Self, Error>)
        requires
            self.wf(),
        ensures
            match r {
                Ok(d) => {
                    &&& d.wf()
                    &&& refusal(
                        self@.entry_paths,
                        entrypoint_copy((current_exe, to), file, self@.build_path),
                    ) is None
                    &&& d@ == (SuperDockerfileView {
                        lines: (self@.lines + copy_lines(
                            entrypoint_copy((current_exe, to), file, self@.build_path),
                        )).push(entrypoint_line(to@, entrypoint_args.deep_view())),
                        entry_paths: self@.entry_paths + copy_paths(
                            entrypoint_copy((current_exe, to), file, self@.build_path),
                        ),
                        archive: archived(
                            self@.archive,
                            entrypoint_copy((current_exe, to), file, self@.build_path),
                        ),
                        ..self@
                    })
                    &&& copies_recorded(self@) && spaceless(
                        entrypoint_copy((current_exe, to), file, self@.build_path),
                    ) ==> copies_recorded(d@)
                },
                Err(e) => refusal(
                    self@.entry_paths,
                    entrypoint_copy((current_exe, to), file, self@.build_path),
                ) == Some(e.kind),
            },
    {
        self.with_entrypoint((current_exe, to), file, entrypoint_args)
    }

    /// Similar to `bootstrap`, for an image with a MUSL libc: the entrypoint is
    /// the running binary where the plan says that it is built for MUSL, and
    /// otherwise the binary that the build of the plan has left. `binary` is
    /// the path of the running binary, and `file` holds the mode and the
    /// bytes of the binary that becomes the entrypoint.
    pub fn bootstrap_musl(
        self,
        plan: &MuslPlan,
        binary: String,
        file: (u32, Vec<u8>),
        to: String,
        entrypoint_args: Vec<String>,
    ) -> (r: Result<Self, Error>)
        requires
            self.wf(),
        ensures
            match r {
                Ok(d) => {
                    &&& d.wf()
                    &&& refusal(
                        self@.entry_paths,
                        entrypoint_copy((musl_entrypoint(*plan, binary), to), file, self@.build_path),
                    ) is None
                    &&& d@ == (SuperDockerfileView {
                        lines: (self@.lines + copy_lines(
                            entrypoint_copy(
                                (musl_entrypoint(*plan, binary), to),
                                file,
                                self@.build_path,
                            ),
                        )).push(entrypoint_line(to@, entrypoint_args.deep_view())),
                        entry_paths: self@.entry_paths + copy_paths(
                            entrypoint_copy(
                                (musl_entrypoint(*plan, binary), to),
                                file,
                                self@.build_path,
                            ),
                        ),
                        archive: archived(
                            self@.archive,
                            entrypoint_copy(
                                (musl_entrypoint(*plan, binary), to),
                                file,
                                self@.build_path,
                            ),
                        ),
                        ..self@
                    })
                    &&& copies_recorded(self@) && spaceless(
                        entrypoint_copy(
                            (musl_entrypoint(*plan, binary), to),
                            file,
                            self@.build_path,
                        ),
                    ) ==> copies_recorded(d@)
                },
                Err(e) => refusal(
                    self@.entry_paths,
                    entrypoint_copy((musl_entrypoint(*plan, binary), to), file, self@.build_path),
                ) == Some(e.kind),
            },
    {
        let from = match plan {
            MuslPlan::UseCurrent => binary,
            MuslPlan::Build { command, entrypoint } => entrypoint.clone(),
        };
        self.with_entrypoint((from, to), file, entrypoint_args)
    }

    /// Inserts the rendered Dockerfile into the build context and consumes
    /// `self`, returning the options and the bytes of the archive with which
    /// the image is built.
    ///
    /// `base_file` holds the bytes of the Dockerfile on the host where the
    /// base is a path. The error is of kind `Io` where those bytes are
    /// missing, and otherwise that of the entry's refusal: `Validation` where
    /// the build context holds a file of the Dockerfile's name already.
    pub fn into_bollard_args(self, base_file: Option<Vec<u8>>) -> (r: Result<
        (ImageBuildOptions, Vec<u8>),
        Error,
    >)
        requires
            self.wf(),
        ensures
            match self.build_refusal(bytes_view(base_file)) {
                None => {
                    &&& r matches Ok(args)
                    &&& self.built(bytes_view(base_file)) matches Some(entry)
                    &&& args.1@ == self@.archive + entry + tar_end()
                    &&& args.0.dockerfile@ == DOCKER_FILE_NAME@
                    &&& labels_view(args.0.labels@) == match self@.image_name {
                        Some(n) => labels_view(self@.build_opts.labels@).push(label_of(n)),
                        None => labels_view(self@.build_opts.labels@),
                    }
                    &&& self@.build_opts.same_but_dockerfile_and_labels(&args.0)
                },
                Some(kind) => r matches Err(e) && e.kind == kind,
            },
    {
        let source = match self.base.source_bytes(base_file) {
            Ok(s) => s,
            Err(e) => {
                return Err(e);
            },
        };
        let content = self.render(source);
        let mut tarball = self.tarball;
        match tarball.append_file_bytes(
            DOCKER_FILE_NAME.to_owned(),
            DOCKER_FILE_MODE,
            content.as_slice(),
        ) {
            Ok(_) => {},
            Err(e) => {
                return Err(e);
            },
        }
        let mut opts = self.build_opts;
        match self.image_name {
            Some(name) => {
                let ghost before = labels_view(opts.labels@);
                let label = split_at_first(name.as_str(), ':');
                opts.labels.push(label);
                assert(labels_view(opts.labels@) =~= before.push(label_of(name@)));
            },
            None => {},
        }
        opts.dockerfile = DOCKER_FILE_NAME.to_owned();
        match tarball.into_tarball() {
            Ok(bytes) => Ok((opts, bytes)),
            Err(e) => Err(e),
        }
    }

    /// Why the rendered Dockerfile cannot be put into the build context, if
    /// it cannot: its source is missing, or its entry is refused.
    pub open spec fn build_refusal(&self, base_file: Option<Seq<u8>>) -> Option<ErrorKind> {
        match self@.base.spec_source_bytes(base_file) {
            Some(source) => entry_refusal(
                self@.entry_paths,
                DOCKER_FILE_NAME@,
                DOCKER_FILE_MODE,
                rendered(source, self@.lines),
            ),
            None => Some(ErrorKind::Io),
        }
    }

    /// The archive entry of the rendered Dockerfile, where it can be made:
    /// where the source is at hand and the archive takes the entry.
    pub open spec fn built(&self, base_file: Option<Seq<u8>>) -> Option<Seq<u8>> {
        match self@.base.spec_source_bytes(base_file) {
            Some(source) => tar_entry(
                DOCKER_FILE_NAME@,
                DOCKER_FILE_MODE,
                rendered(source, self@.lines),
            ),
            None => None,
        }
    }
}

/// The source that a line copies from, where the line is a `COPY`
/// instruction: what stands between `COPY ` and the next space.
pub open spec fn copy_source(line: Seq<char>) -> Option<Seq<char>> {
    if starts_with(line, "COPY "@) {
        let rest = line.subrange(5, line.len() as int);
        Some(rest.subrange(0, first_index_of(rest, ' ')))
    } else {
        None
    }
}

/// The sources of the `COPY` instructions among the lines, in order.
pub open spec fn copy_sources(lines: Seq<Seq<char>>) -> Seq<Seq<char>>
    decreases lines.len(),
{
    if lines.len() == 0 {
        Seq::empty()
    } else {
        match copy_source(lines.last()) {
            Some(src) => copy_sources(lines.drop_last()).push(src),
            None => copy_sources(lines.drop_last()),
        }
    }
}

/// Whether a text is free of spaces.
pub open spec fn no_space(s: Seq<char>) -> bool {
    forall|i: int| 0 <= i < s.len() ==> s[i] != ' '
}

/// Whether the build context holds exactly the files that the Dockerfile
/// copies: the sources of its `COPY` instructions are the paths of the
/// entries.
pub open spec fn copies_recorded(d: SuperDockerfileView) -> bool {
    forall|x: Seq<char>| copy_sources(d.lines).contains(x) <==> d.entry_paths.contains(x)
}

/// Whether none of the lines is a `COPY` instruction.
pub open spec fn no_copy_lines(lines: Seq<Seq<char>>) -> bool {
    forall|i: int| 0 <= i < lines.len() ==> copy_source(#[trigger] lines[i]) is None
}

/// Whether the sources of all the copies are free of spaces.
pub open spec fn spaceless(copies: Seq<CopyView>) -> bool {
    forall|i: int| 0 <= i < copies.len() ==> no_space(#[trigger] copies[i].src)
}

/// A line that does not begin with `C` is no `COPY` instruction.
pub proof fn lemma_not_a_copy(line: Seq<char>)
    requires
        line.len() > 0,
        line[0] != 'C',
    ensures
        copy_source(line) is None,
{
    reveal_strlit("COPY ");
    if starts_with(line, "COPY "@) {
        assert(line.subrange(0, 5)[0] == 'C');
    }
}

/// Lines that are no `COPY` instructions add nothing to the sources.
pub proof fn lemma_other_lines(lines: Seq<Seq<char>>, more: Seq<Seq<char>>)
    requires
        no_copy_lines(more),
    ensures
        copy_sources(lines + more) == copy_sources(lines),
    decreases more.len(),
{
    if more.len() == 0 {
        assert(lines + more =~= lines);
    } else {
        lemma_other_lines(lines, more.drop_last());
        assert((lines + more).drop_last() =~= lines + more.drop_last());
        assert((lines + more).last() == more.last());
        assert(more.last() == more[more.len() - 1]);
    }
}

/// A text without spaces ends at the first space that follows it.
pub proof fn lemma_first_space(src: Seq<char>, rest: Seq<char>)
    requires
        no_space(src),
    ensures
        first_index_of(src + seq![' '] + rest, ' ') == src.len(),
    decreases src.len(),
{
    let whole = src + seq![' '] + rest;
    if src.len() == 0 {
        assert(whole[0] == ' ');
    } else {
        assert(whole[0] == src[0]);
        assert(whole.drop_first() =~= src.drop_first() + seq![' '] + rest);
        lemma_first_space(src.drop_first(), rest);
    }
}

/// Reading the source back from a `COPY` instruction gives the source it was
/// written with, where that has no space in it.
pub proof fn lemma_copy_source_round_trip(src: Seq<char>, dst: Seq<char>)
    requires
        no_space(src),
    ensures
        copy_source(copy_line(src, dst)) == Some(src),
{
    reveal_strlit("COPY ");
    reveal_strlit(" ");
    let line = copy_line(src, dst);
    assert(line.subrange(0, 5) =~= "COPY "@);
    let rest = line.subrange(5, line.len() as int);
    assert(" "@ =~= seq![' ']);
    assert(rest =~= src + seq![' '] + dst);
    lemma_first_space(src, dst);
    assert(rest.subrange(0, src.len() as int) =~= src);
}

/// The sources of a list of lines that ends in the instructions of some
/// copies are the sources of the lines before, and then the copies' own.
pub proof fn lemma_copy_sources_append(lines: Seq<Seq<char>>, copies: Seq<CopyView>)
    requires
        forall|i: int| 0 <= i < copies.len() ==> no_space(#[trigger] copies[i].src),
    ensures
        copy_sources(lines + copy_lines(copies)) == copy_sources(lines) + copy_paths(copies),
    decreases copies.len(),
{
    if copies.len() == 0 {
        assert(lines + copy_lines(copies) =~= lines);
        assert(copy_sources(lines) + copy_paths(copies) =~= copy_sources(lines));
    } else {
        let front = copies.drop_last();
        let c = copies.last();
        lemma_copy_sources_append(lines, front);
        lemma_copy_source_round_trip(c.src, c.dst);
        let all = lines + copy_lines(copies);
        assert(all.drop_last() =~= lines + copy_lines(front));
        assert(all.last() == copy_line(c.src, c.dst));
        assert(copy_paths(copies) =~= copy_paths(front).push(c.src));
        assert(copy_sources(all) =~= copy_sources(lines) + copy_paths(copies));
    }
}

/// The build context and the `COPY` instructions stay in step: where the
/// sources of a Dockerfile's `COPY` instructions are the paths of its
/// entries, they are so again after copies with space-free sources have been
/// added to both.
pub proof fn lemma_copies_stay_recorded(
    before: SuperDockerfileView,
    copies: Seq<CopyView>,
    after: SuperDockerfileView,
)
    requires
        copies_recorded(before),
        forall|i: int| 0 <= i < copies.len() ==> no_space(#[trigger] copies[i].src),
        after.lines == before.lines + copy_lines(copies),
        after.entry_paths == before.entry_paths + copy_paths(copies),
    ensures
        copies_recorded(after),
{
    lemma_copy_sources_append(before.lines, copies);
    assert forall|x: Seq<char>| copy_sources(after.lines).contains(x) <==> after.entry_paths.contains(
        x,
    ) by {
        lemma_concat_contains(copy_sources(before.lines), copy_paths(copies), x);
        lemma_concat_contains(before.entry_paths, copy_paths(copies), x);
    }
}

impl SuperImage {
    /// A Dockerfile that builds on this image and adds nothing.
    pub fn to_docker_file(&self) -> (r: SuperDockerfile)
        ensures
            r.wf(),
            r@.base matches Dockerfile::NameTag(s) && s@ == self@,
            r@.lines == Seq::<Seq<char>>::empty(),
            r@.entry_paths == Seq::<Seq<char>>::empty(),
            r@.archive == Seq::<u8>::empty(),
            r@.build_path is None,
            r@.image_name is None,
            r@.build_opts.is_default(),
            copies_recorded(r@),
    {
        SuperDockerfile::new(Dockerfile::name_tag(self.get_image_id()), None)
    }
}

} // verus!
