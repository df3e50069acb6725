//! The description of one container, and the arguments of the Docker commands
//! that bring it up.

use vstd::prelude::*;
use crate::dockerfile::Dockerfile;
use crate::error::{Error, ErrorKind};
use crate::file_options::FileOptions;
use crate::image::ImageBuildOptions;
use crate::port_bind::PortBind;
use crate::super_dockerfile::{labels_view, SuperDockerfile};
use crate::text::{split_at_first, split_once};

verus! {

/// Container running information, put this into a `ContainerNetwork`
#[derive(Debug, Clone, PartialEq, Eq)]
pub struct Container {
    /// The name of the container, unique within a network; it is also the
    /// hostname of the container.
    pub name: String,
    /// The image: a prebuilt one, or the source to build one from.
    pub dockerfile: Dockerfile,
    /// Each string is passed in as `--build-arg "[String]"` (the quotations
    /// are added), so a string "ARG=val" would set the variable "ARG" for the
    /// docker file to use.
    pub build_args: Vec<String>,
    /// Pairs of a host path and the path in the container that it is mounted at.
    pub volumes: Vec<(String, String)>,
    /// Environment variables, as pairs of name and value.
    pub env: Vec<(String, String)>,
    /// Path to the entrypoint binary on the host.
    pub entrypoint_file: Option<String>,
    /// Passed to the entrypoint, each as an argument of its own.
    pub entrypoint_args: Vec<String>,
    /// Ports of the container that are bound to the host.
    pub ports: Vec<PortBind>,
    /// Where the standard output goes, if not to the default log file.
    pub stdout_log: Option<FileOptions>,
    /// Where the standard error goes, if not to the default log file.
    pub stderr_log: Option<FileOptions>,
    /// Further arguments for the creation of the container.
    pub create_args: Vec<String>,
}

impl Container {
    /// A container named `name` from the given image source, with nothing
    /// else set.
    pub fn new(name: &str, dockerfile: Dockerfile) -> (c: Self)
        ensures
            c.name@ == name@,
            c.dockerfile == dockerfile,
            c.build_args@.len() == 0,
            c.volumes@.len() == 0,
            c.env@.len() == 0,
            c.entrypoint_file is None,
            c.entrypoint_args@.len() == 0,
            c.ports@.len() == 0,
            c.stdout_log is None,
            c.stderr_log is None,
            c.create_args@.len() == 0,
    {
        Container {
            name: name.to_owned(),
            dockerfile,
            build_args: Vec::new(),
            volumes: Vec::new(),
            env: Vec::new(),
            entrypoint_file: None,
            entrypoint_args: Vec::new(),
            ports: Vec::new(),
            stdout_log: None,
            stderr_log: None,
            create_args: Vec::new(),
        }
    }

    /// The image that the container is created from: the prebuilt image, or
    /// the image that is built under the name of the container.
    pub open spec fn spec_image(&self) -> Seq<char> {
        match self.dockerfile {
            Dockerfile::NameTag(nt) => nt@,
            _ => self.name@,
        }
    }

    /// The image that the container is created from.
    pub fn image(&self) -> (r: String)
        ensures
            r@ == self.spec_image(),
    {
        match &self.dockerfile {
            Dockerfile::NameTag(nt) => nt.clone(),
            _ => self.name.clone(),
        }
    }

    /// The options with which the image of this container is built: the
    /// image is tagged with the name that the container is created from, and
    /// every build argument `ARG=val` sets the variable `ARG` to `val`.
    pub fn build_options(&self) -> (r: ImageBuildOptions)
        ensures
            r.is_plain(),
            r.dockerfile@.len() == 0,
            r.labels@.len() == 0,
            r.t@ == self.spec_image(),
            labels_view(r.buildargs@) == self.build_args.deep_view().map_values(
                |a: Seq<char>| split_once(a, '='),
            ),
    {
        let mut r = ImageBuildOptions::default();
        r.t = self.image();
        let ghost want = self.build_args.deep_view().map_values(|a: Seq<char>| split_once(a, '='));
        let mut k: usize = 0;
        assert(labels_view(r.buildargs@) =~= want.take(0));
        while k < self.build_args.len()
            invariant
                k <= self.build_args.len(),
                r.is_plain(),
                r.dockerfile@.len() == 0,
                r.labels@.len() == 0,
                r.t@ == self.spec_image(),
                want == self.build_args.deep_view().map_values(|a: Seq<char>| split_once(a, '=')),
                labels_view(r.buildargs@) == want.take(k as int),
            decreases self.build_args.len() - k,
        {
            let ghost before = labels_view(r.buildargs@);
            let pair = split_at_first(self.build_args[k].as_str(), '=');
            r.buildargs.push(pair);
            k += 1;
            assert(labels_view(r.buildargs@) =~= before.push((pair.0@, pair.1@)));
            assert(labels_view(r.buildargs@) =~= want.take(k as int));
        }
        assert(want.take(k as int) =~= want);
        r
    }

    /// The assembler of the image of this container: on the container's
    /// Dockerfile, with the container's build options, and nothing added yet.
    pub fn assembler(&self) -> (r: SuperDockerfile)
        ensures
            r.wf(),
            r@.base == self.dockerfile,
            r@.lines == Seq::<Seq<char>>::empty(),
            r@.entry_paths == Seq::<Seq<char>>::empty(),
            r@.archive == Seq::<u8>::empty(),
            r@.build_path is None,
            r@.image_name is None,
            r@.build_opts.is_plain(),
            r@.build_opts.t@ == self.spec_image(),
            labels_view(r@.build_opts.buildargs@) == self.build_args.deep_view().map_values(
                |a: Seq<char>| split_once(a, '='),
            ),
    {
        SuperDockerfile::new(self.dockerfile.duplicate(), None).with_build_opts(
            self.build_options(),
        )
    }

    /// Sets the entrypoint binary and the arguments passed to it.
    pub fn entrypoint(self, entrypoint_file: String, entrypoint_args: Vec<String>) -> (c: Self)
        ensures
            c == (Container { entrypoint_file: Some(entrypoint_file), entrypoint_args, ..self }),
    {
        let mut c = self;
        c.entrypoint_file = Some(entrypoint_file);
        c.entrypoint_args = entrypoint_args;
        c
    }

    /// Adds a volume.
    pub fn volume(self, host_path: String, container_path: String) -> (c: Self)
        ensures
            c.volumes@ == self.volumes@.push((host_path, container_path)),
            c == (Container { volumes: c.volumes, ..self }),
    {
        let mut c = self;
        c.volumes.push((host_path, container_path));
        c
    }

    /// Adds an environment variable.
    pub fn env_var(self, name: String, value: String) -> (c: Self)
        ensures
            c.env@ == self.env@.push((name, value)),
            c == (Container { env: c.env, ..self }),
    {
        let mut c = self;
        c.env.push((name, value));
        c
    }

    /// Sets the build arguments.
    pub fn build_args(self, build_args: Vec<String>) -> (c: Self)
        ensures
            c == (Container { build_args, ..self }),
    {
        let mut c = self;
        c.build_args = build_args;
        c
    }

    /// Sets the further arguments for the creation of the container.
    pub fn create_args(self, create_args: Vec<String>) -> (c: Self)
        ensures
            c == (Container { create_args, ..self }),
    {
        let mut c = self;
        c.create_args = create_args;
        c
    }

    /// Adds a port binding.
    pub fn port(self, port: PortBind) -> (c: Self)
        ensures
            c.ports@ == self.ports@.push(port),
            c == (Container { ports: c.ports, ..self }),
    {
        let mut c = self;
        c.ports.push(port);
        c
    }

    /// Sets where the output of the container goes instead of the default
    /// log files.
    pub fn log(self, stdout_log: Option<FileOptions>, stderr_log: Option<FileOptions>) -> (c: Self)
        ensures
            c == (Container { stdout_log, stderr_log, ..self }),
    {
        let mut c = self;
        c.stdout_log = stdout_log;
        c.stderr_log = stderr_log;
        c
    }
}

/// The `--volume` arguments for volumes with the given canonical host paths.
pub open spec fn volume_args(hosts: Seq<Seq<char>>, volumes: Seq<(String, String)>) -> Seq<
    Seq<char>,
>
    decreases volumes.len(),
{
    if volumes.len() == 0 || hosts.len() != volumes.len() {
        Seq::empty()
    } else {
        volume_args(hosts.drop_last(), volumes.drop_last()) + seq![
            "--volume"@,
            hosts.last() + ":"@ + volumes.last().1@,
        ]
    }
}

/// The directory in the container at which the entrypoint binary is mounted.
pub open spec fn entrypoint_dir() -> Seq<char> {
    "/usr/bin/"@
}

/// The `--volume` argument that mounts the entrypoint binary, given its
/// canonical host path and its file name.
pub open spec fn entrypoint_volume(entrypoint: Option<(Seq<char>, Seq<char>)>) -> Seq<Seq<char>> {
    match entrypoint {
        Some((host, name)) => seq!["--volume"@, host + ":"@ + entrypoint_dir() + name],
        None => Seq::empty(),
    }
}

/// The arguments of `docker` that create a container, as a list of texts.
pub open spec fn create_command(
    c: Container,
    network_name: Seq<char>,
    image: Seq<char>,
    volume_hosts: Seq<Seq<char>>,
    entrypoint: Option<(Seq<char>, Seq<char>)>,
) -> Seq<Seq<char>> {
    seq![
        "create"@,
        "--rm"@,
        "--network"@,
        network_name,
        "--hostname"@,
        c.name@,
        "--name"@,
        c.name@,
    ] + volume_args(volume_hosts, c.volumes@) + entrypoint_volume(entrypoint) + seq![
        "-t"@,
        image,
    ] + (match entrypoint {
        Some((host, name)) => seq![name],
        None => Seq::empty(),
    }) + c.entrypoint_args.deep_view()
}

/// The `--build-arg` arguments, each value within quotation marks.
pub open spec fn build_arg_args(build_args: Seq<Seq<char>>) -> Seq<Seq<char>>
    decreases build_args.len(),
{
    if build_args.len() == 0 {
        Seq::empty()
    } else {
        build_arg_args(build_args.drop_last()) + seq![
            "--build-arg"@,
            "\""@ + build_args.last() + "\""@,
        ]
    }
}

/// The arguments of `docker` that build an image from a Dockerfile on the host.
pub open spec fn build_command(
    c: Container,
    image: Seq<char>,
    dockerfile_path: Seq<char>,
    context: Seq<char>,
) -> Seq<Seq<char>> {
    seq!["build"@, "-t"@, image, "--file"@, dockerfile_path] + build_arg_args(
        c.build_args.deep_view(),
    ) + seq![context]
}

impl Container {
    /// The arguments with which `docker` creates this container:
    /// `create --rm --network N --hostname H --name H`, one `--volume h:c` for
    /// each volume and one that mounts the entrypoint binary, `-t`, the
    /// image, then the name of the entrypoint binary and its arguments, each
    /// as a token of its own.
    ///
    /// `volume_hosts` holds the canonical host path of each volume, in order,
    /// and `entrypoint` the canonical host path and the file name of the
    /// entrypoint binary, where the container has one.
    pub fn create_command(
        &self,
        network_name: &str,
        image: &str,
        volume_hosts: &Vec<String>,
        entrypoint: Option<&(String, String)>,
    ) -> (r: Result<Vec<String>, Error>)
        ensures
            match r {
                Ok(args) => volume_hosts@.len() == self.volumes@.len() && args.deep_view()
                    == create_command(
                    *self,
                    network_name@,
                    image@,
                    volume_hosts.deep_view(),
                    match entrypoint {
                        Some(e) => Some((e.0@, e.1@)),
                        None => None,
                    },
                ),
                Err(e) => volume_hosts@.len() != self.volumes@.len() && e.kind
                    == ErrorKind::Validation,
            },
    {
        if volume_hosts.len() != self.volumes.len() {
            return Err(
                Error::new(
                    ErrorKind::Validation,
                    "Container::create_command -> the host paths do not match the volumes".to_owned(),
                ),
            );
        }
        let mut args: Vec<String> = Vec::new();
        args.push("create".to_owned());
        args.push("--rm".to_owned());
        args.push("--network".to_owned());
        args.push(network_name.to_owned());
        args.push("--hostname".to_owned());
        args.push(self.name.clone());
        args.push("--name".to_owned());
        args.push(self.name.clone());
        let ghost head = args.deep_view();
        assert(head =~= seq![
            "create"@,
            "--rm"@,
            "--network"@,
            network_name@,
            "--hostname"@,
            self.name@,
            "--name"@,
            self.name@,
        ]);
        let mut k: usize = 0;
        assert(volume_hosts.deep_view().take(0) =~= Seq::<Seq<char>>::empty());
        assert(self.volumes@.take(0) =~= Seq::<(String, String)>::empty());
        assert(args.deep_view() =~= head + Seq::<Seq<char>>::empty());
        while k < self.volumes.len()
            invariant
                k <= self.volumes.len(),
                volume_hosts.len() == self.volumes.len(),
                args.deep_view() == head + volume_args(
                    volume_hosts.deep_view().take(k as int),
                    self.volumes@.take(k as int),
                ),
            decreases self.volumes.len() - k,
        {
            let ghost before = args.deep_view();
            args.push("--volume".to_owned());
            let mut pair = volume_hosts[k].clone();
            pair.append(":");
            pair.append(self.volumes[k].1.as_str());
            args.push(pair);
            k += 1;
            proof {
                let hs = volume_hosts.deep_view().take(k as int);
                let vs = self.volumes@.take(k as int);
                assert(hs.drop_last() =~= volume_hosts.deep_view().take(k - 1));
                assert(vs.drop_last() =~= self.volumes@.take(k - 1));
                assert(hs.last() == volume_hosts[k - 1]@);
                assert(vs.last() == self.volumes@[k - 1]);
                assert(args.deep_view() =~= before + seq!["--volume"@, pair@]);
            }
        }
        assert(volume_hosts.deep_view().take(k as int) =~= volume_hosts.deep_view());
        assert(self.volumes@.take(k as int) =~= self.volumes@);
        let ghost entry = match entrypoint {
            Some(e) => Some((e.0@, e.1@)),
            None => None,
        };
        let ghost with_volumes = args.deep_view();
        match entrypoint {
            Some(e) => {
                args.push("--volume".to_owned());
                let mut mount = e.0.clone();
                mount.append(":");
                mount.append("/usr/bin/");
                mount.append(e.1.as_str());
                args.push(mount);
                assert(args.deep_view() =~= with_volumes + entrypoint_volume(entry));
            },
            None => {
                assert(args.deep_view() =~= with_volumes + entrypoint_volume(entry));
            },
        }
        let ghost mounted = args.deep_view();
        args.push("-t".to_owned());
        args.push(image.to_owned());
        match entrypoint {
            Some(e) => {
                args.push(e.1.clone());
            },
            None => {},
        }
        let ghost before_args = args.deep_view();
        assert(before_args =~= mounted + seq!["-t"@, image@] + (match entry {
            Some((host, name)) => seq![name],
            None => Seq::<Seq<char>>::empty(),
        }));
        let mut rest = self.entrypoint_args.clone();
        assert(rest.deep_view() =~= self.entrypoint_args.deep_view());
        args.append(&mut rest);
        assert(args.deep_view() =~= before_args + self.entrypoint_args.deep_view());
        Ok(args)
    }

    /// The arguments with which `docker` builds the image of this container
    /// from a Dockerfile on the host: `build -t <image> --file <path>`, one
    /// `--build-arg "K=V"` for each build argument, then the build context.
    pub fn build_command(&self, image: &str, dockerfile_path: &str, context: &str) -> (r: Vec<
        String,
    >)
        ensures
            r.deep_view() == build_command(*self, image@, dockerfile_path@, context@),
    {
        let mut args: Vec<String> = Vec::new();
        args.push("build".to_owned());
        args.push("-t".to_owned());
        args.push(image.to_owned());
        args.push("--file".to_owned());
        args.push(dockerfile_path.to_owned());
        let ghost head = args.deep_view();
        assert(head =~= seq!["build"@, "-t"@, image@, "--file"@, dockerfile_path@]);
        let mut k: usize = 0;
        assert(self.build_args.deep_view().take(0) =~= Seq::<Seq<char>>::empty());
        assert(args.deep_view() =~= head + Seq::<Seq<char>>::empty());
        while k < self.build_args.len()
            invariant
                k <= self.build_args.len(),
                args.deep_view() == head + build_arg_args(
                    self.build_args.deep_view().take(k as int),
                ),
            decreases self.build_args.len() - k,
        {
            let ghost before = args.deep_view();
            args.push("--build-arg".to_owned());
            let mut quoted = "\"".to_owned();
            quoted.append(self.build_args[k].as_str());
            quoted.append("\"");
            args.push(quoted);
            k += 1;
            proof {
                let bs = self.build_args.deep_view().take(k as int);
                assert(bs.drop_last() =~= self.build_args.deep_view().take(k - 1));
                assert(bs.last() == self.build_args[k - 1]@);
                assert(args.deep_view() =~= before + seq!["--build-arg"@, quoted@]);
            }
        }
        assert(self.build_args.deep_view().take(k as int) =~= self.build_args.deep_view());
        let ghost before = args.deep_view();
        args.push(context.to_owned());
        assert(args.deep_view() =~= before + seq![context@]);
        args
    }
}

/// The arguments of `docker` that create an internal network.
pub open spec fn network_create_command(network_args: Seq<Seq<char>>, network_name: Seq<char>) -> Seq<
    Seq<char>,
> {
    seq!["network"@, "create"@, "--internal"@] + network_args + seq![network_name]
}

/// The arguments with which `docker` creates the network:
/// `network create --internal <network_args…> <network_name>`.
pub fn network_create_command_args(network_args: &Vec<String>, network_name: &str) -> (r: Vec<
    String,
>)
    ensures
        r.deep_view() == network_create_command(network_args.deep_view(), network_name@),
{
    let mut args: Vec<String> = Vec::new();
    args.push("network".to_owned());
    args.push("create".to_owned());
    args.push("--internal".to_owned());
    let ghost head = args.deep_view();
    assert(head =~= seq!["network"@, "create"@, "--internal"@]);
    let mut more = network_args.clone();
    assert(more.deep_view() =~= network_args.deep_view());
    args.append(&mut more);
    let ghost before = args.deep_view();
    assert(before =~= head + network_args.deep_view());
    args.push(network_name.to_owned());
    assert(args.deep_view() =~= before + seq![network_name@]);
    args
}

/// The arguments with which `docker` removes the network: `network rm <name>`.
pub fn network_remove_command_args(network_name: &str) -> (r: Vec<String>)
    ensures
        r.deep_view() == seq!["network"@, "rm"@, network_name@],
{
    let mut args: Vec<String> = Vec::new();
    args.push("network".to_owned());
    args.push("rm".to_owned());
    args.push(network_name.to_owned());
    assert(args.deep_view() =~= seq!["network"@, "rm"@, network_name@]);
    args
}

/// The arguments with which `docker` removes a container by force: `rm -f <id>`.
pub fn remove_command_args(container_id: &str) -> (r: Vec<String>)
    ensures
        r.deep_view() == seq!["rm"@, "-f"@, container_id@],
{
    let mut args: Vec<String> = Vec::new();
    args.push("rm".to_owned());
    args.push("-f".to_owned());
    args.push(container_id.to_owned());
    assert(args.deep_view() =~= seq!["rm"@, "-f"@, container_id@]);
    args
}

/// The arguments with which `docker` starts a container and stays attached to
/// its output: `start --attach <id>`.
pub fn start_command_args(container_id: &str) -> (r: Vec<String>)
    ensures
        r.deep_view() == seq!["start"@, "--attach"@, container_id@],
{
    let mut args: Vec<String> = Vec::new();
    args.push("start".to_owned());
    args.push("--attach".to_owned());
    args.push(container_id.to_owned());
    assert(args.deep_view() =~= seq!["start"@, "--attach"@, container_id@]);
    args
}

} // verus!
