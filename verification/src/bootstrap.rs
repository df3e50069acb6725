//! Making the running binary the entrypoint of an image.

use vstd::prelude::*;
use crate::text::{chars_of, ends_with, string_of_range};

verus! {

/// When using the docker entrypoint strategy, this specifies what domain the
/// binaries are under (which affects how the binary can be built and where it
/// ends up in the target folder).
#[derive(Debug, Clone, Copy, PartialEq, Eq, Structural)]
pub enum BootstrapOptions {
    /// If this is a normal binary
    Bin,
    /// If this is under the `example/` folder
    Example,
    /// If this is a test
    Test,
    /// If this is a benchmark
    Bench,
}

/// The path inside the image at which the running binary is placed by default.
pub const DEFAULT_BOOTSTRAP_PATH: &'static str = "/super-bootstrapped";

impl BootstrapOptions {
    /// The flag with which Cargo selects a target of this domain.
    pub open spec fn spec_flag(self) -> Seq<char> {
        match self {
            BootstrapOptions::Bin => "--bin"@,
            BootstrapOptions::Example => "--example"@,
            BootstrapOptions::Test => "--test"@,
            BootstrapOptions::Bench => "--bench"@,
        }
    }

    /// The directory below the release directory that holds the binaries of
    /// this domain; normal binaries lie in the release directory itself.
    pub open spec fn spec_path_str(self) -> Option<Seq<char>> {
        match self {
            BootstrapOptions::Bin => None,
            BootstrapOptions::Example => Some("examples"@),
            BootstrapOptions::Test => Some("tests"@),
            BootstrapOptions::Bench => Some("benches"@),
        }
    }

    /// The flag with which Cargo selects a target of this domain.
    pub fn to_flag(self) -> (r: &'static str)
        ensures
            r@ == self.spec_flag(),
    {
        match self {
            BootstrapOptions::Bin => "--bin",
            BootstrapOptions::Example => "--example",
            BootstrapOptions::Test => "--test",
            BootstrapOptions::Bench => "--bench",
        }
    }

    /// The directory below the release directory that holds the binaries of
    /// this domain.
    pub fn to_path_str(self) -> (r: Option<&'static str>)
        ensures
            match r {
                Some(s) => self.spec_path_str() == Some(s@),
                None => self.spec_path_str() is None,
            },
    {
        match self {
            BootstrapOptions::Bin => None,
            BootstrapOptions::Example => Some("examples"),
            BootstrapOptions::Test => Some("tests"),
            BootstrapOptions::Bench => Some("benches"),
        }
    }
}

/// The name under which Cargo knows a binary: on Windows the file carries the
/// extension `.exe` and the Cargo target does not.
pub open spec fn cargo_binary_name(path: Seq<char>, windows: bool) -> Seq<char> {
    if windows && ends_with(path, ".exe"@) {
        path.subrange(0, path.len() - 4)
    } else {
        path
    }
}

/// When dealing with windows binaries, the file will have the .exe extension
/// while the rust binary won't: on Windows the extension is removed, and
/// elsewhere the path is kept as it is.
pub fn normalize_windows_exe_path_for_cargo_binary(path: String, windows: bool) -> (r: String)
    ensures
        r@ == cargo_binary_name(path@, windows),
{
    if !windows {
        return path;
    }
    let chars = chars_of(path.as_str());
    let n = chars.len();
    proof {
        reveal_strlit(".exe");
    }
    if n >= 4 && chars[n - 4] == '.' && chars[n - 3] == 'e' && chars[n - 2] == 'x' && chars[n - 1]
        == 'e' {
        assert(path@.subrange(n - 4, n as int) =~= ".exe"@);
        string_of_range(&chars, 0, n - 4)
    } else {
        assert(!ends_with(path@, ".exe"@)) by {
            if ends_with(path@, ".exe"@) {
                let tail = path@.subrange(n - 4, n as int);
                assert(tail[0] == '.' && tail[1] == 'e' && tail[2] == 'x' && tail[3] == 'e');
            }
        }
        path
    }
}

/// The directories, innermost last, below which Cargo places a release binary
/// of the given domain that is built for the MUSL target.
pub open spec fn musl_release_dirs(option: BootstrapOptions) -> Seq<Seq<char>> {
    let base = seq!["target"@, "x86_64-unknown-linux-musl"@, "release"@];
    match option.spec_path_str() {
        Some(sub) => base.push(sub),
        None => base,
    }
}

/// Whether the directory with the given components is the place of such a
/// binary: whether its last components are those of `musl_release_dirs`.
pub open spec fn in_musl_release_dir(dir: Seq<Seq<char>>, option: BootstrapOptions) -> bool {
    let want = musl_release_dirs(option);
    want.len() <= dir.len() && dir.subrange(dir.len() - want.len(), dir.len() as int) == want
}

/// The arguments of the build of the binary `name` for the MUSL target.
pub open spec fn musl_build_command(
    option: BootstrapOptions,
    name: Seq<char>,
    other_build_flags: Seq<Seq<char>>,
) -> Seq<Seq<char>> {
    seq![
        "cargo"@,
        "build"@,
        "-r"@,
        "--target"@,
        "x86_64-unknown-linux-musl"@,
        option.spec_flag(),
        name,
    ] + other_build_flags
}

/// The path, relative to the workspace, at which that build leaves the binary.
pub open spec fn musl_binary_path(option: BootstrapOptions, name: Seq<char>) -> Seq<char> {
    match option.spec_path_str() {
        Some(sub) => "./target/x86_64-unknown-linux-musl/release/"@ + sub + "/"@ + name,
        None => "./target/x86_64-unknown-linux-musl/release/"@ + name,
    }
}

/// What has to happen before the running binary can serve as the entrypoint
/// of an image with a MUSL libc.
#[derive(Debug, Clone, PartialEq, Eq)]
pub enum MuslPlan {
    /// The running binary is built for MUSL already and is used as it is.
    UseCurrent,
    /// The binary has to be built by `command`, which leaves it at
    /// `entrypoint`.
    Build { command: Vec<String>, entrypoint: String },
}

/// Decides how the MUSL binary is obtained, given the components of the
/// directory that holds the running binary and that binary's file name.
pub fn musl_plan(
    current_dir: &Vec<String>,
    binary_file_name: String,
    windows: bool,
    option: BootstrapOptions,
    other_build_flags: Vec<String>,
) -> (plan: MuslPlan)
    ensures
        match plan {
            MuslPlan::UseCurrent => in_musl_release_dir(current_dir.deep_view(), option),
            MuslPlan::Build { command, entrypoint } => {
                &&& !in_musl_release_dir(current_dir.deep_view(), option)
                &&& command.deep_view() == musl_build_command(
                    option,
                    cargo_binary_name(binary_file_name@, windows),
                    other_build_flags.deep_view(),
                )
                &&& entrypoint@ == musl_binary_path(
                    option,
                    cargo_binary_name(binary_file_name@, windows),
                )
            },
        },
{
    let mut want: Vec<&'static str> = Vec::new();
    want.push("target");
    want.push("x86_64-unknown-linux-musl");
    want.push("release");
    match option.to_path_str() {
        Some(sub) => {
            want.push(sub);
        },
        None => {},
    }
    let ghost want_view = musl_release_dirs(option);
    assert(want@.len() == want_view.len());
    assert(forall|k: int| 0 <= k < want@.len() ==> (#[trigger] want@[k])@ == want_view[k]);
    let mut is_musl = want.len() <= current_dir.len();
    if is_musl {
        let offset = current_dir.len() - want.len();
        let mut k: usize = 0;
        while is_musl && k < want.len()
            invariant
                k <= want.len(),
                offset + want.len() == current_dir.len(),
                want@.len() == want_view.len(),
                forall|j: int| 0 <= j < want@.len() ==> (#[trigger] want@[j])@ == want_view[j],
                is_musl ==> forall|j: int|
                    0 <= j < k ==> current_dir.deep_view()[offset + j] == want_view[j],
                !is_musl ==> exists|j: int|
                    0 <= j < want_view.len() && current_dir.deep_view()[offset + j] != want_view[j],
            decreases want.len() - k + (if is_musl { 1int } else { 0int }),
        {
            if crate::text::same_text(current_dir[offset + k].as_str(), want[k]) {
                k += 1;
            } else {
                is_musl = false;
                assert(current_dir.deep_view()[offset + k] != want_view[k as int]);
            }
        }
        proof {
            let tail = current_dir.deep_view().subrange(
                current_dir.len() - want_view.len(),
                current_dir.len() as int,
            );
            if is_musl {
                assert(tail =~= want_view);
            } else {
                let j = choose|j: int|
                    0 <= j < want_view.len() && current_dir.deep_view()[offset + j] != want_view[j];
                assert(tail[j] != want_view[j]);
            }
        }
    }
    if is_musl {
        return MuslPlan::UseCurrent;
    }
    let name = normalize_windows_exe_path_for_cargo_binary(binary_file_name, windows);
    let mut command: Vec<String> = Vec::new();
    command.push("cargo".to_owned());
    command.push("build".to_owned());
    command.push("-r".to_owned());
    command.push("--target".to_owned());
    command.push("x86_64-unknown-linux-musl".to_owned());
    command.push(option.to_flag().to_owned());
    command.push(name.clone());
    let ghost head = command.deep_view();
    let mut flags = other_build_flags;
    let ghost flags_view = flags.deep_view();
    command.append(&mut flags);
    assert(command.deep_view() =~= head + flags_view);
    assert(head =~= seq![
        "cargo"@,
        "build"@,
        "-r"@,
        "--target"@,
        "x86_64-unknown-linux-musl"@,
        option.spec_flag(),
        name@,
    ]);
    let mut entrypoint = "./target/x86_64-unknown-linux-musl/release/".to_owned();
    match option.to_path_str() {
        Some(sub) => {
            entrypoint.append(sub);
            entrypoint.append("/");
        },
        None => {},
    }
    entrypoint.append(name.as_str());
    MuslPlan::Build { command, entrypoint }
}

} // verus!
