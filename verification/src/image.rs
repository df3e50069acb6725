//! Images and the options with which they are built.

use vstd::prelude::*;
use crate::error::{Error, ErrorKind};

verus! {

/// Wrapper struct for a simple image
#[derive(Debug, Clone, PartialEq, Eq)]
pub struct SuperImage(String);

impl View for SuperImage {
    type V = Seq<char>;

    /// The ID of the image.
    closed spec fn view(&self) -> Seq<char> {
        self.0@
    }
}

impl SuperImage {
    /// Should use a prebuilt image
    pub fn new(image_id: String) -> (r: Self)
        ensures
            r@ == image_id@,
    {
        SuperImage(image_id)
    }

    /// The ID of the image.
    pub fn into_inner(self) -> (r: String)
        ensures
            r@ == self@,
    {
        self.0
    }

    /// Get the ID of the image as a `&str`
    pub fn get_image_id(&self) -> (r: &str)
        ensures
            r@ == self@,
    {
        self.0.as_str()
    }
}

/// The generation of the builder in the Docker daemon.
#[derive(Debug, Clone, Copy, PartialEq, Eq, Structural)]
pub enum BuilderVersion {
    /// The first generation builder.
    BuilderV1,
    /// The builder based on BuildKit.
    BuilderBuildKit,
}

/// The options of an image build, as the Docker Engine API takes them.
#[derive(Debug, Clone, PartialEq, Eq)]
pub struct ImageBuildOptions {
    /// Path within the build context to the Dockerfile.
    pub dockerfile: String,
    /// A name and optional tag to apply to the image in the `name:tag` format.
    pub t: String,
    /// Extra hosts to add to `/etc/hosts`.
    pub extrahosts: Option<String>,
    /// Suppress verbose build output.
    pub q: bool,
    /// Do not use the cache when building the image.
    pub nocache: bool,
    /// Images used for build cache resolution.
    pub cachefrom: Vec<String>,
    /// Attempt to pull the image even if an older image exists locally.
    pub pull: bool,
    /// Remove intermediate containers after a successful build.
    pub rm: bool,
    /// Always remove intermediate containers, even upon failure.
    pub forcerm: bool,
    /// Set memory limit for build.
    pub memory: Option<u64>,
    /// Total memory (memory + swap). Set as `-1` to disable swap.
    pub memswap: Option<i64>,
    /// CPU shares (relative weight).
    pub cpushares: Option<u64>,
    /// CPUs in which to allow execution (e.g., `0-3`, `0,1`).
    pub cpusetcpus: String,
    /// The length of a CPU period in microseconds.
    pub cpuperiod: Option<u64>,
    /// Microseconds of CPU time that the container can get in a CPU period.
    pub cpuquota: Option<u64>,
    /// Build-time variables, as pairs of name and value; of two pairs with
    /// one name the later counts.
    pub buildargs: Vec<(String, String)>,
    /// Size of `/dev/shm` in bytes.
    pub shmsize: Option<u64>,
    /// Squash the resulting images layers into a single layer.
    pub squash: bool,
    /// Labels to set on the image, as pairs of key and value; of two pairs
    /// with one key the later counts.
    pub labels: Vec<(String, String)>,
    /// Sets the networking mode for the run commands during build.
    pub networkmode: String,
    /// Platform in the format `os[/arch[/variant]]`.
    pub platform: String,
    /// Target build stage.
    pub target: String,
    /// Builder version to use.
    pub version: BuilderVersion,
}

impl ImageBuildOptions {
    /// Whether every option but the Dockerfile's name, the tag, the build
    /// arguments and the labels has its default: texts and lists empty,
    /// limits unset, switches off, the first generation builder.
    pub open spec fn is_plain(&self) -> bool {
        &&& self.extrahosts is None
        &&& !self.q
        &&& !self.nocache
        &&& self.cachefrom@.len() == 0
        &&& !self.pull
        &&& !self.rm
        &&& !self.forcerm
        &&& self.memory is None
        &&& self.memswap is None
        &&& self.cpushares is None
        &&& self.cpusetcpus@.len() == 0
        &&& self.cpuperiod is None
        &&& self.cpuquota is None
        &&& self.shmsize is None
        &&& !self.squash
        &&& self.networkmode@.len() == 0
        &&& self.platform@.len() == 0
        &&& self.target@.len() == 0
        &&& self.version == BuilderVersion::BuilderV1
    }

    /// Whether every option has its default.
    pub open spec fn is_default(&self) -> bool {
        &&& self.is_plain()
        &&& self.dockerfile@.len() == 0
        &&& self.t@.len() == 0
        &&& self.buildargs@.len() == 0
        &&& self.labels@.len() == 0
    }

    /// Whether `other` has the same options but for the Dockerfile's name and
    /// the labels.
    pub open spec fn same_but_dockerfile_and_labels(&self, other: &Self) -> bool {
        &&& self.t == other.t
        &&& self.extrahosts == other.extrahosts
        &&& self.q == other.q
        &&& self.nocache == other.nocache
        &&& self.cachefrom == other.cachefrom
        &&& self.pull == other.pull
        &&& self.rm == other.rm
        &&& self.forcerm == other.forcerm
        &&& self.memory == other.memory
        &&& self.memswap == other.memswap
        &&& self.cpushares == other.cpushares
        &&& self.cpusetcpus == other.cpusetcpus
        &&& self.cpuperiod == other.cpuperiod
        &&& self.cpuquota == other.cpuquota
        &&& self.buildargs == other.buildargs
        &&& self.shmsize == other.shmsize
        &&& self.squash == other.squash
        &&& self.networkmode == other.networkmode
        &&& self.platform == other.platform
        &&& self.target == other.target
        &&& self.version == other.version
    }
}

impl Default for ImageBuildOptions {
    fn default() -> (r: Self)
        ensures
            r.is_default(),
    {
        ImageBuildOptions {
            dockerfile: String::new(),
            t: String::new(),
            extrahosts: None,
            q: false,
            nocache: false,
            cachefrom: Vec::new(),
            pull: false,
            rm: false,
            forcerm: false,
            memory: None,
            memswap: None,
            cpushares: None,
            cpusetcpus: String::new(),
            cpuperiod: None,
            cpuquota: None,
            buildargs: Vec::new(),
            shmsize: None,
            squash: false,
            labels: Vec::new(),
            networkmode: String::new(),
            platform: String::new(),
            target: String::new(),
            version: BuilderVersion::BuilderV1,
        }
    }
}

/// The image that a build produced, given the ids that its stream of events
/// carried in their `aux` part, in order: the first of them counts, and a
/// build without one there has failed.
pub fn image_from_build(aux_ids: Vec<Option<String>>) -> (r: Result<SuperImage, Error>)
    ensures
        match r {
            Ok(image) => aux_ids@.len() > 0 && (aux_ids@[0] matches Some(id) && id@ == image@),
            Err(e) => (aux_ids@.len() == 0 || aux_ids@[0] is None) && e.kind == ErrorKind::Api
                && e.messages() == seq!["image built without id"@],
        },
{
    let mut aux_ids = aux_ids;
    if aux_ids.len() > 0 {
        match aux_ids.swap_remove(0) {
            Some(id) => {
                return Ok(SuperImage::new(id));
            },
            None => {},
        }
    }
    Err(Error::new(ErrorKind::Api, "image built without id".to_owned()))
}

} // verus!
