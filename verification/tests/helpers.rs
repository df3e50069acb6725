use super_orchestrator::bootstrap::{
    musl_plan, normalize_windows_exe_path_for_cargo_binary, BootstrapOptions, MuslPlan,
    DEFAULT_BOOTSTRAP_PATH,
};
use super_orchestrator::container::{
    network_remove_command_args, remove_command_args, start_command_args, Container,
};
use super_orchestrator::container_state::CommandResult;
use super_orchestrator::diagnostics::{container_report, find_panic_fragment, find_stack_fragment};
use super_orchestrator::dockerfile::Dockerfile;
use super_orchestrator::error::{Error, ErrorKind};
use super_orchestrator::file_options::{FileOptions, OpenFlags, ReadOrWrite, WriteOptions};
use super_orchestrator::ids::{name_with_uuid, random_name};
use super_orchestrator::misc::{
    command_output, container_with_prefix, read_guard, removal_takes, retry_after_failure,
    split_command, RemovalGuard,
};
use super_orchestrator::net_message::{
    frame, header, read_frame_prefix, type_hash, HEADER_LEN, PREFIX_LEN, TYPE_HASH_LEN,
};
use super_orchestrator::port_bind::{port_bindings_to_bollard_args, PortBind, PortBindProtocol};
use super_orchestrator::super_dockerfile::SuperDockerfile;
use super_orchestrator::text::{
    chars_of, decimal_string, find_char, find_last, join, matches_at, same_text,
    string_of_range, text_before,
};

fn strings(items: &[&str]) -> Vec<String> {
    items.iter().map(|s| s.to_string()).collect()
}

fn chars(s: &str) -> Vec<char> {
    s.chars().collect()
}

// text

#[test]
fn chars_and_strings_convert_back_and_forth() {
    assert_eq!(chars_of("héllo"), vec!['h', 'é', 'l', 'l', 'o']);
    assert_eq!(chars_of(""), Vec::<char>::new());
    assert_eq!(string_of_range(&chars("日本語"), 0, 3), "日本語");
    assert_eq!(string_of_range(&chars("abcdef"), 2, 4), "cd");
    assert_eq!(string_of_range(&chars("abcdef"), 3, 3), "");
}

#[test]
fn same_text_compares_contents() {
    assert!(same_text("", ""));
    assert!(same_text("abc", "abc"));
    assert!(!same_text("abc", "abd"));
    assert!(!same_text("abc", "ab"));
    assert!(!same_text("ab", "abc"));
}

#[test]
fn text_before_is_the_order_of_str() {
    let samples = ["", "a", "ab", "b", "B", "é", "z", "10", "9", "日本", "a\u{10FFFF}"];
    for x in samples {
        for y in samples {
            assert_eq!(text_before(x, y), x < y, "{x:?} < {y:?}");
        }
    }
}

#[test]
fn find_last_finds_the_last_occurrence() {
    assert_eq!(find_last(&chars("abcabc"), &chars("bc")), Some(4));
    assert_eq!(find_last(&chars("abcabc"), &chars("abc")), Some(3));
    assert_eq!(find_last(&chars("abcabc"), &chars("abcabc")), Some(0));
    assert_eq!(find_last(&chars("abcabc"), &chars("x")), None);
    assert_eq!(find_last(&chars("ab"), &chars("abc")), None);
    assert_eq!(find_last(&chars("aaa"), &chars("aa")), Some(1));
    // as `str::rfind`, the empty text is found at the end
    assert_eq!(find_last(&chars("abc"), &chars("")), Some(3));
    assert_eq!(find_last(&chars(""), &chars("")), Some(0));
    assert!(matches_at(&chars("abc"), &chars("bc"), 1));
    assert!(!matches_at(&chars("abc"), &chars("bc"), 2));
    assert!(!matches_at(&chars("abc"), &chars("bc"), 7));
}

#[test]
fn find_char_gives_the_first_position_or_the_length() {
    assert_eq!(find_char(&chars("a:b:c"), ':'), 1);
    assert_eq!(find_char(&chars(":"), ':'), 0);
    assert_eq!(find_char(&chars("abc"), ':'), 3);
    assert_eq!(find_char(&chars(""), ':'), 0);
}

#[test]
fn join_puts_the_separator_between() {
    assert_eq!(join(&strings(&[]), ", "), "");
    assert_eq!(join(&strings(&["a"]), ", "), "a");
    assert_eq!(join(&strings(&["a", "b", "c"]), ", "), "a, b, c");
    assert_eq!(join(&strings(&["", ""]), "-"), "-");
}

#[test]
fn decimal_string_writes_numerals() {
    for n in [0u64, 1, 9, 10, 11, 99, 100, 8080, 65535, 1_000_000_007, u64::MAX] {
        assert_eq!(decimal_string(n), n.to_string());
    }
    assert_eq!(decimal_string(u64::MAX), "18446744073709551615");
}

// errors

#[test]
fn errors_stack_their_context() {
    let e = Error::empty(ErrorKind::Io);
    assert_eq!(e.kind, ErrorKind::Io);
    assert!(e.stack.is_empty());
    let e = Error::new(ErrorKind::Api, "inner".to_string()).stack_err("outer".to_string());
    assert_eq!(e.kind, ErrorKind::Api);
    assert_eq!(e.stack, strings(&["inner", "outer"]));
    assert!(!e.is_timeout());
    let e = e.with_kind(ErrorKind::Timeout);
    assert!(e.is_timeout());
    assert_eq!(e.stack, strings(&["inner", "outer"]));
}

// file options

#[test]
fn file_options_constructors() {
    let write = ReadOrWrite::Write(WriteOptions {
        create: true,
        append: false,
    });
    let f = FileOptions::read("a/b.txt");
    assert_eq!((f.path.as_str(), f.options), ("a/b.txt", ReadOrWrite::Read));
    let f = FileOptions::read2("a", "b.txt");
    assert_eq!((f.path.as_str(), f.options), ("a/b.txt", ReadOrWrite::Read));
    let f = FileOptions::write("a/b.txt");
    assert_eq!((f.path.as_str(), f.options), ("a/b.txt", write));
    let f = FileOptions::write2("a/", "b.txt");
    assert_eq!((f.path.as_str(), f.options), ("a/b.txt", write));
    let f = FileOptions::new("x", ReadOrWrite::write(false, true));
    assert_eq!(
        f.options,
        ReadOrWrite::Write(WriteOptions {
            create: false,
            append: true
        })
    );
    let f = FileOptions::new2("dir", "/abs/file", ReadOrWrite::read());
    // an absolute file name replaces the directory
    assert_eq!(f.path, "/abs/file");
    assert_eq!(ReadOrWrite::read(), ReadOrWrite::Read);
    let copy = f.duplicate();
    assert_eq!((copy.path, copy.options), (f.path, f.options));
}

#[test]
fn create_and_append_are_for_writing_only() {
    let f = FileOptions::write("f").create(false).unwrap();
    assert_eq!(
        f.options,
        ReadOrWrite::Write(WriteOptions {
            create: false,
            append: false
        })
    );
    let f = f.append(true).unwrap();
    assert_eq!(
        f.options,
        ReadOrWrite::Write(WriteOptions {
            create: false,
            append: true
        })
    );
    assert_eq!(f.path, "f");
    assert_eq!(
        FileOptions::read("f").create(true).unwrap_err().kind,
        ErrorKind::Validation
    );
    assert_eq!(
        FileOptions::read("f").append(true).unwrap_err().kind,
        ErrorKind::Validation
    );
}

#[test]
fn open_flags_follow_the_options() {
    assert_eq!(
        FileOptions::read("f").open_flags(),
        OpenFlags {
            read: true,
            write: false,
            create: false,
            truncate: false,
            append: false
        }
    );
    assert_eq!(
        FileOptions::write("f").open_flags(),
        OpenFlags {
            read: false,
            write: true,
            create: true,
            truncate: true,
            append: false
        }
    );
    assert_eq!(
        FileOptions::new("f", ReadOrWrite::write(false, true)).open_flags(),
        OpenFlags {
            read: false,
            write: true,
            create: false,
            truncate: false,
            append: true
        }
    );
    assert!(FileOptions::read("f").must_exist());
    assert!(!FileOptions::write("f").must_exist());
    assert!(FileOptions::new("f", ReadOrWrite::write(false, false)).must_exist());
}

#[test]
fn preacquire_plan_splits_the_path() {
    let plan = FileOptions::write("logs/sub/out.log").preacquire().unwrap();
    assert_eq!(plan.directory, "logs/sub");
    assert_eq!(plan.file_name, "out.log");
    assert!(!plan.must_exist);
    let plan = FileOptions::read("file.txt").preacquire().unwrap();
    assert_eq!(plan.directory, "");
    assert_eq!(plan.file_name, "file.txt");
    assert!(plan.must_exist);
    // no parent
    assert_eq!(
        FileOptions::read("/").preacquire().unwrap_err().kind,
        ErrorKind::Validation
    );
    assert_eq!(
        FileOptions::read("").preacquire().unwrap_err().kind,
        ErrorKind::Validation
    );
    // no file name
    assert_eq!(
        FileOptions::read("a/..").preacquire().unwrap_err().kind,
        ErrorKind::Validation
    );
}

// bootstrap

#[test]
fn bootstrap_options_name_flag_and_directory() {
    assert_eq!(BootstrapOptions::Bin.to_flag(), "--bin");
    assert_eq!(BootstrapOptions::Example.to_flag(), "--example");
    assert_eq!(BootstrapOptions::Test.to_flag(), "--test");
    assert_eq!(BootstrapOptions::Bench.to_flag(), "--bench");
    assert_eq!(BootstrapOptions::Bin.to_path_str(), None);
    assert_eq!(BootstrapOptions::Example.to_path_str(), Some("examples"));
    assert_eq!(BootstrapOptions::Test.to_path_str(), Some("tests"));
    assert_eq!(BootstrapOptions::Bench.to_path_str(), Some("benches"));
    assert_eq!(DEFAULT_BOOTSTRAP_PATH, "/super-bootstrapped");
}

#[test]
fn exe_suffix_is_removed_on_windows_only() {
    let f = normalize_windows_exe_path_for_cargo_binary;
    assert_eq!(f("tool.exe".to_string(), true), "tool");
    assert_eq!(f("tool.exe".to_string(), false), "tool.exe");
    assert_eq!(f("tool".to_string(), true), "tool");
    assert_eq!(f(".exe".to_string(), true), "");
    assert_eq!(f("exe".to_string(), true), "exe");
    assert_eq!(f("a.exe.exe".to_string(), true), "a.exe");
    assert_eq!(f("a.EXE".to_string(), true), "a.EXE");
    assert_eq!(f("é.exe".to_string(), true), "é");
}

#[test]
fn a_musl_binary_is_used_as_it_is() {
    let dir = strings(&["/", "work", "target", "x86_64-unknown-linux-musl", "release"]);
    assert!(matches!(
        musl_plan(&dir, "tool".to_string(), false, BootstrapOptions::Bin, vec![]),
        MuslPlan::UseCurrent
    ));
    let dir = strings(&["target", "x86_64-unknown-linux-musl", "release", "examples"]);
    assert!(matches!(
        musl_plan(&dir, "ex".to_string(), false, BootstrapOptions::Example, vec![]),
        MuslPlan::UseCurrent
    ));
    // a normal binary does not lie among the examples
    assert!(matches!(
        musl_plan(&dir, "ex".to_string(), false, BootstrapOptions::Bin, vec![]),
        MuslPlan::Build { .. }
    ));
}

#[test]
fn another_binary_is_built_for_musl() {
    let dir = strings(&["/", "work", "target", "debug"]);
    match musl_plan(
        &dir,
        "tool.exe".to_string(),
        true,
        BootstrapOptions::Bin,
        strings(&["--features", "x"]),
    ) {
        MuslPlan::Build {
            command,
            entrypoint,
        } => {
            assert_eq!(
                command,
                strings(&[
                    "cargo",
                    "build",
                    "-r",
                    "--target",
                    "x86_64-unknown-linux-musl",
                    "--bin",
                    "tool",
                    "--features",
                    "x"
                ])
            );
            assert_eq!(entrypoint, "./target/x86_64-unknown-linux-musl/release/tool");
        }
        other => panic!("unexpected {other:?}"),
    }
    match musl_plan(
        &strings(&["release"]),
        "t".to_string(),
        false,
        BootstrapOptions::Test,
        vec![],
    ) {
        MuslPlan::Build {
            command,
            entrypoint,
        } => {
            assert_eq!(command[5], "--test");
            assert_eq!(
                entrypoint,
                "./target/x86_64-unknown-linux-musl/release/tests/t"
            );
        }
        other => panic!("unexpected {other:?}"),
    }
}

#[test]
fn bootstrap_musl_takes_the_binary_of_the_plan() {
    let built = MuslPlan::Build {
        command: vec![],
        entrypoint: "target/musl/tool".to_string(),
    };
    let d = SuperDockerfile::new(Dockerfile::name_tag("alpine:3"), None)
        .bootstrap_musl(
            &built,
            "target/debug/tool".to_string(),
            (0o755, vec![]),
            "/super-bootstrapped".to_string(),
            vec![],
        )
        .unwrap();
    assert_eq!(d.lines()[0], "COPY target/musl/tool /super-bootstrapped");
    let d = SuperDockerfile::new(Dockerfile::name_tag("alpine:3"), None)
        .bootstrap_musl(
            &MuslPlan::UseCurrent,
            "target/debug/tool".to_string(),
            (0o755, vec![]),
            "/super-bootstrapped".to_string(),
            vec![],
        )
        .unwrap();
    assert_eq!(d.lines()[0], "COPY target/debug/tool /super-bootstrapped");
}

// containers

#[test]
fn a_new_container_has_nothing_set() {
    let c = Container::new("name", Dockerfile::name_tag("alpine:3"));
    assert_eq!(c.name, "name");
    assert!(matches!(&c.dockerfile, Dockerfile::NameTag(s) if s == "alpine:3"));
    assert!(c.build_args.is_empty() && c.volumes.is_empty() && c.env.is_empty());
    assert!(c.entrypoint_file.is_none() && c.entrypoint_args.is_empty());
    assert!(c.ports.is_empty() && c.create_args.is_empty());
    assert!(c.stdout_log.is_none() && c.stderr_log.is_none());
    assert_eq!(c.image(), "alpine:3");
    assert_eq!(
        Container::new("built", Dockerfile::path("./Dockerfile")).image(),
        "built"
    );
}

#[test]
fn builders_set_their_fields() {
    let c = Container::new("c", Dockerfile::name_tag("a:b"))
        .build_args(strings(&["A=1"]))
        .create_args(strings(&["--privileged"]))
        .env_var("K".to_string(), "V".to_string())
        .volume("/h".to_string(), "/c".to_string())
        .port(PortBind::new(80))
        .entrypoint("/bin/e".to_string(), strings(&["x"]));
    assert_eq!(c.build_args, strings(&["A=1"]));
    assert_eq!(c.create_args, strings(&["--privileged"]));
    assert_eq!(c.env, vec![("K".to_string(), "V".to_string())]);
    assert_eq!(c.volumes, vec![("/h".to_string(), "/c".to_string())]);
    assert_eq!(c.ports.len(), 1);
    assert_eq!(c.entrypoint_file, Some("/bin/e".to_string()));
    assert_eq!(c.entrypoint_args, strings(&["x"]));
    assert_eq!(c.name, "c");
}

#[test]
fn create_command_lists_the_arguments_in_order() {
    let c = Container::new("web", Dockerfile::name_tag("alpine:3"))
        .volume("./data".to_string(), "/data".to_string())
        .volume("./conf".to_string(), "/etc/conf".to_string())
        .entrypoint("./bin/server".to_string(), strings(&["--port", "80", "a b"]));
    let args = c
        .create_command(
            "testnet",
            "alpine:3",
            &strings(&["/abs/data", "/abs/conf"]),
            Some(&("/abs/bin/server".to_string(), "server".to_string())),
        )
        .unwrap();
    assert_eq!(
        args,
        strings(&[
            "create",
            "--rm",
            "--network",
            "testnet",
            "--hostname",
            "web",
            "--name",
            "web",
            "--volume",
            "/abs/data:/data",
            "--volume",
            "/abs/conf:/etc/conf",
            "--volume",
            "/abs/bin/server:/usr/bin/server",
            "-t",
            "alpine:3",
            "server",
            "--port",
            "80",
            "a b"
        ])
    );
}

#[test]
fn create_command_without_volumes_and_entrypoint() {
    let c = Container::new("c", Dockerfile::name_tag("img:1"));
    assert_eq!(
        c.create_command("n", "img:1", &vec![], None).unwrap(),
        strings(&[
            "create",
            "--rm",
            "--network",
            "n",
            "--hostname",
            "c",
            "--name",
            "c",
            "-t",
            "img:1"
        ])
    );
}

#[test]
fn create_command_needs_a_host_path_for_each_volume() {
    let c = Container::new("c", Dockerfile::name_tag("img:1"))
        .volume("a".to_string(), "/a".to_string());
    assert_eq!(
        c.create_command("n", "img:1", &vec![], None)
            .unwrap_err()
            .kind,
        ErrorKind::Validation
    );
}

#[test]
fn build_command_quotes_the_build_arguments() {
    let c = Container::new("c", Dockerfile::path("./d/Dockerfile"))
        .build_args(strings(&["A=1", "B=two words"]));
    assert_eq!(
        c.build_command("c", "/abs/d/Dockerfile", "/abs/d"),
        strings(&[
            "build",
            "-t",
            "c",
            "--file",
            "/abs/d/Dockerfile",
            "--build-arg",
            "\"A=1\"",
            "--build-arg",
            "\"B=two words\"",
            "/abs/d"
        ])
    );
}

#[test]
fn the_other_docker_commands() {
    assert_eq!(remove_command_args("abc"), strings(&["rm", "-f", "abc"]));
    assert_eq!(
        start_command_args("abc"),
        strings(&["start", "--attach", "abc"])
    );
    assert_eq!(
        network_remove_command_args("net"),
        strings(&["network", "rm", "net"])
    );
}

// port bindings

#[test]
fn port_bind_defaults_and_builders() {
    let p = PortBind::new(8080);
    assert_eq!(p.container_port, 8080);
    assert_eq!(p.host_port, Some(8080));
    assert_eq!(p.host_ip, None);
    assert_eq!(p.protocol, PortBindProtocol::Tcp);
    let p = PortBind::from(53u16)
        .with_host_port(5353)
        .with_host_ip("127.0.0.1".to_string())
        .with_protocol(PortBindProtocol::Udp);
    assert_eq!(p.container_port, 53);
    assert_eq!(p.host_port, Some(5353));
    assert_eq!(p.host_ip, Some("127.0.0.1".to_string()));
    assert_eq!(p.protocol, PortBindProtocol::Udp);
    assert_eq!(p.key(), "53/udp");
    assert_eq!(PortBind::new(0).key(), "0/tcp");
    assert_eq!(PortBind::new(65535).key(), "65535/tcp");
    assert_eq!(PortBindProtocol::Tcp.as_str(), "tcp");
    assert_eq!(PortBindProtocol::Udp.as_str(), "udp");
}

#[test]
fn a_binding_without_host_port_takes_the_container_port() {
    let mut p = PortBind::new(443);
    p.host_port = None;
    let b = p.binding();
    assert_eq!(b.host_port, Some("443".to_string()));
    assert_eq!(b.host_ip, None);
    let b = PortBind::new(443)
        .with_host_port(8443)
        .with_host_ip("::1".to_string())
        .binding();
    assert_eq!(b.host_port, Some("8443".to_string()));
    assert_eq!(b.host_ip, Some("::1".to_string()));
}

#[test]
fn port_bindings_are_grouped_by_container_port() {
    let pbs = vec![
        PortBind::new(80),
        PortBind::new(53).with_protocol(PortBindProtocol::Udp),
        PortBind::new(80).with_host_port(8080),
        PortBind::new(53),
        PortBind::new(80).with_host_port(8081).with_host_ip("10.0.0.1".to_string()),
    ];
    let args = port_bindings_to_bollard_args(&pbs);
    assert_eq!(args.exposed, strings(&["80/tcp", "53/udp", "53/tcp"]));
    assert_eq!(args.bindings.len(), 3);
    let ports = |i: usize| -> Vec<Option<String>> {
        args.bindings[i].iter().map(|b| b.host_port.clone()).collect()
    };
    assert_eq!(
        ports(0),
        vec![
            Some("80".to_string()),
            Some("8080".to_string()),
            Some("8081".to_string())
        ]
    );
    assert_eq!(ports(1), vec![Some("53".to_string())]);
    assert_eq!(ports(2), vec![Some("53".to_string())]);
    assert_eq!(args.bindings[0][2].host_ip, Some("10.0.0.1".to_string()));
    let none = port_bindings_to_bollard_args(&vec![]);
    assert!(none.exposed.is_empty() && none.bindings.is_empty());
}

// ids

#[test]
fn names_get_a_suffix_from_the_uuid() {
    assert_eq!(
        name_with_uuid("net", 0x0123_4567_89ab_cdef_0123_4567_89ab_cdefu128),
        "net-012345"
    );
    assert_eq!(name_with_uuid("", 0), "-000000");
    let a = random_name("job");
    assert!(a.starts_with("job-"));
    assert_eq!(a.len(), "job-".len() + 6);
    assert!(a["job-".len()..].chars().all(|c| c.is_ascii_hexdigit()));
}

// diagnostics

fn failed(stdout: &[u8], status: Option<i32>) -> CommandResult {
    CommandResult {
        status,
        stdout: stdout.to_vec(),
        stderr: Vec::new(),
    }
}

#[test]
fn the_last_error_stack_counts() {
    assert_eq!(
        find_stack_fragment(&chars("x Error { stack: [ 1 ] } y Error { stack: [ 2 ] }")),
        Some("Error { stack: [ 2 ] }".to_string())
    );
    assert_eq!(find_stack_fragment(&chars("no stack")), None);
    assert_eq!(
        find_stack_fragment(&chars("ProbablyNotRootCauseError Error { stack: [ 1 ] }")),
        None
    );
}

#[test]
fn a_panic_message_starts_at_its_thread() {
    assert_eq!(
        find_panic_fragment(&chars("thread 'a' panicked at x\nthread 'b' panicked at y\nend")),
        Some("thread 'b' panicked at y\nend".to_string())
    );
    assert_eq!(find_panic_fragment(&chars("it panicked at nothing")), None);
    assert_eq!(find_panic_fragment(&chars("thread but no panic")), None);
    // the thread has to come before
    assert_eq!(find_panic_fragment(&chars("x panicked at thread")), None);
}

#[test]
fn a_successful_container_reports_nothing() {
    assert!(container_report("c", &failed(b"Error { stack: [ x ] }", Some(0))).is_empty());
}

#[test]
fn a_container_can_report_both_a_stack_and_a_panic() {
    let out = b"thread 'main' panicked at 'boom'\nError { stack: [ x ] }";
    assert_eq!(
        container_report("c", &failed(out, Some(101))),
        strings(&[
            "Error stack from container \"c\":\nError { stack: [ x ] }\n",
            "Panic message from container \"c\":\nthread 'main' panicked at 'boom'\nError { stack: [ x ] }\n",
        ])
    );
}

#[test]
fn a_silent_failure_is_reported_unless_terminated() {
    assert_eq!(
        container_report("c", &failed(b"nothing", Some(1))),
        strings(&[
            "Error: Container \"c\" was unsuccessful but does not seem to have an error stack or panic message\n"
        ])
    );
    assert!(container_report("c", &failed(b"nothing", None)).is_empty());
    // a stack that is left out is not silence
    assert!(container_report(
        "c",
        &failed(b"Error { stack: [ ProbablyNotRootCauseError ] }", Some(1))
    )
    .is_empty());
}

#[test]
fn output_that_is_not_utf8_is_read_with_replacements() {
    let out = b"\xff\xfeError { stack: [ \xc3\x28 ] }";
    assert_eq!(
        container_report("c", &failed(out, Some(1))),
        strings(&["Error stack from container \"c\":\nError { stack: [ \u{FFFD}( ] }\n"])
    );
}

// shell helpers

#[test]
fn split_command_needs_a_program() {
    assert_eq!(
        split_command(vec![]).unwrap_err().kind,
        ErrorKind::Validation
    );
    assert_eq!(
        split_command(strings(&["ls"])).unwrap(),
        ("ls".to_string(), vec![])
    );
    assert_eq!(
        split_command(strings(&["docker", "rm", "-f"])).unwrap(),
        ("docker".to_string(), strings(&["rm", "-f"]))
    );
}

#[test]
fn command_output_is_the_stdout_of_a_successful_command() {
    assert_eq!(
        command_output(&failed("héllo\n".as_bytes(), Some(0))).unwrap(),
        "héllo\n"
    );
    assert_eq!(
        command_output(&failed(b"x", Some(1))).unwrap_err().kind,
        ErrorKind::ExternalCommand
    );
    assert_eq!(
        command_output(&failed(b"x", None)).unwrap_err().kind,
        ErrorKind::ExternalCommand
    );
    assert_eq!(
        command_output(&failed(b"\xff", Some(0))).unwrap_err().kind,
        ErrorKind::Io
    );
    assert_eq!(failed(b"ok", Some(3)).stdout_as_utf8(), Some("ok".to_string()));
    assert_eq!(failed(b"\xc3", Some(3)).stdout_as_utf8(), None);
}

#[test]
fn retries_run_out() {
    let last = || Error::new(ErrorKind::Io, "connection refused".to_string());
    assert_eq!(retry_after_failure(3, 3, last()).unwrap(), 2);
    assert_eq!(retry_after_failure(1, 3, last()).unwrap(), 0);
    let e = retry_after_failure(0, 3, last()).unwrap_err();
    assert_eq!(e.kind, ErrorKind::Timeout);
    assert_eq!(
        e.stack,
        strings(&[
            "connection refused",
            "wait_for_ok(num_retries: 3) timeout, last error stack was:"
        ])
    );
    // without retries the first failure is the last
    assert!(retry_after_failure(0, 0, last()).unwrap_err().is_timeout());
}

#[test]
fn guards_are_file_names_or_extensions() {
    assert!(matches!(read_guard("binary"), Ok(RemovalGuard::FileName(n)) if n == "binary"));
    assert!(matches!(read_guard(".log"), Ok(RemovalGuard::Extension(e)) if e == "log"));
    assert!(matches!(read_guard(".tar.gz"), Ok(RemovalGuard::Extension(e)) if e == "tar.gz"));
    assert!(matches!(read_guard("tar.gz"), Ok(RemovalGuard::FileName(n)) if n == "tar.gz"));
    for bad in ["", ".", "a/b", ".a/b", "a\\b", "/"] {
        assert_eq!(read_guard(bad).unwrap_err().kind, ErrorKind::Validation, "{bad:?}");
    }
}

#[test]
fn removal_takes_whole_names_and_whole_extensions() {
    let takes = |name: &str, guards: &[&str]| -> bool {
        let mut names = Vec::new();
        let mut extensions = Vec::new();
        for g in guards {
            match read_guard(g).unwrap() {
                RemovalGuard::FileName(n) => names.push(n),
                RemovalGuard::Extension(e) => extensions.push(e),
            }
        }
        removal_takes(name, &names, &extensions)
    };
    // only complete extension components match
    assert!(!takes("ex2.tar.gz", &["r.gz", ".r.gz"]));
    assert!(!takes("tar.gz", &["r.gz", ".r.gz"]));
    assert!(takes("binary", &["binary", ".log"]));
    assert!(takes("ex0.log", &["binary", ".log"]));
    assert!(!takes("ex2.tar.gz", &["binary", ".log"]));
    assert!(takes("ex2.tar.gz", &[".gz"]));
    assert!(takes("tar.gz", &[".gz"]));
    // a file name is matched as a whole
    assert!(!takes("ex2.tar.gz", &["tar.gz"]));
    assert!(!takes("ex3.tar.gz.other", &["tar.gz"]));
    assert!(takes("tar.gz", &["tar.gz"]));
    // only a strict extension suffix is matched
    assert!(takes("ex2.tar.gz", &[".tar.gz"]));
    assert!(!takes("ex3.tar.gz.other", &[".tar.gz"]));
    assert!(!takes("tar.gz", &[".tar.gz"]));
    assert!(takes("ex3.tar.gz.other", &[".gz", ".other"]));
    // a leading dot does not begin an extension
    assert!(!takes(".gz", &[".gz"]));
    assert!(takes(".hidden.gz", &[".gz"]));
    assert!(!takes("anything", &[]));
}

// frames

#[test]
fn type_hash_is_the_start_of_the_sha3_digest() {
    let name = "alloc::string::String";
    let digest = <sha3::Sha3_256 as sha3::Digest>::digest(name.as_bytes());
    let hash = type_hash(name);
    assert_eq!(hash.len(), 16);
    assert_eq!(TYPE_HASH_LEN, 16);
    assert_eq!(hash.as_slice(), &digest[..16]);
    assert_ne!(type_hash("u8"), type_hash("u16"));
    // the digest of the empty input is well known
    assert_eq!(
        type_hash(""),
        vec![
            0xa7, 0xff, 0xc6, 0xf8, 0xbf, 0x1e, 0xd7, 0x66, 0x51, 0xc1, 0x47, 0x56, 0xa0, 0x61,
            0xd6, 0x62
        ]
    );
}

#[test]
fn a_frame_is_header_length_and_payload() {
    let hash: Vec<u8> = (1..=16).collect();
    let h = header(&hash).unwrap();
    assert_eq!(h.len(), HEADER_LEN);
    assert_eq!(&h[..16], hash.as_slice());
    assert_eq!(&h[16..], &[0u8; 16]);
    let payload = vec![9u8; 300];
    let f = frame(&hash, &payload).unwrap();
    assert_eq!(f.len(), 32 + 8 + 300);
    assert_eq!(&f[..32], h.as_slice());
    assert_eq!(&f[32..40], &[44, 1, 0, 0, 0, 0, 0, 0]);
    assert_eq!(&f[40..], payload.as_slice());
    assert_eq!(PREFIX_LEN, 40);
    assert_eq!(
        read_frame_prefix(&f[..40].to_vec(), &hash).unwrap(),
        300
    );
    let empty = frame(&hash, &vec![]).unwrap();
    assert_eq!(empty.len(), 40);
    assert_eq!(read_frame_prefix(&empty, &hash).unwrap(), 0);
}

#[test]
fn a_frame_of_another_type_is_refused() {
    let hash: Vec<u8> = (1..=16).collect();
    let other: Vec<u8> = (2..=17).collect();
    let f = frame(&hash, &vec![1, 2, 3]).unwrap();
    let prefix = f[..40].to_vec();
    assert_eq!(
        read_frame_prefix(&prefix, &other).unwrap_err().kind,
        ErrorKind::Validation
    );
    // the filling has to be zero
    let mut bad = prefix.clone();
    bad[31] = 1;
    assert_eq!(
        read_frame_prefix(&bad, &hash).unwrap_err().kind,
        ErrorKind::Validation
    );
    // a prefix has 40 bytes
    assert_eq!(
        read_frame_prefix(&f, &hash).unwrap_err().kind,
        ErrorKind::Validation
    );
    assert_eq!(
        read_frame_prefix(&prefix, &vec![1, 2]).unwrap_err().kind,
        ErrorKind::Validation
    );
    assert_eq!(header(&vec![0; 15]).unwrap_err().kind, ErrorKind::Validation);
    assert_eq!(
        frame(&vec![0; 17], &vec![]).unwrap_err().kind,
        ErrorKind::Validation
    );
}

#[test]
fn a_length_uses_all_eight_bytes() {
    let hash = vec![0u8; 16];
    let mut prefix = header(&hash).unwrap();
    prefix.extend_from_slice(&0x0102_0304_0506_0708u64.to_le_bytes());
    assert_eq!(
        read_frame_prefix(&prefix, &hash).unwrap(),
        0x0102_0304_0506_0708
    );
}

#[test]
fn build_options_carry_tag_and_arguments() {
    let c = Container::new("web", Dockerfile::contents("FROM scratch"))
        .build_args(strings(&["A=1", "B=x=y", "FLAG", "=v"]));
    let o = c.build_options();
    assert_eq!(o.t, "web");
    assert_eq!(
        o.buildargs,
        vec![
            ("A".to_string(), "1".to_string()),
            ("B".to_string(), "x=y".to_string()),
            ("FLAG".to_string(), String::new()),
            (String::new(), "v".to_string()),
        ]
    );
    assert_eq!(o.dockerfile, "");
    assert!(o.labels.is_empty());
    assert!(!o.nocache);
    let d = c.assembler();
    assert_eq!(d.base(), &Dockerfile::contents("FROM scratch"));
    assert!(d.lines().is_empty());
    let (opts, _) = d.into_bollard_args(None).unwrap();
    assert_eq!(opts.t, "web");
    assert_eq!(opts.buildargs.len(), 4);
    assert_eq!(Dockerfile::path("p").duplicate(), Dockerfile::path("p"));
}

#[test]
fn split_at_first_splits_once() {
    use_split("a:b:c", ':', "a", "b:c");
    use_split("abc", ':', "abc", "");
    use_split(":", ':', "", "");
    use_split("", ':', "", "");
    use_split("é=ü", '=', "é", "ü");
}

fn use_split(s: &str, c: char, before: &str, after: &str) {
    assert_eq!(
        super_orchestrator::text::split_at_first(s, c),
        (before.to_string(), after.to_string())
    );
}

#[test]
fn the_first_container_with_the_prefix_is_found() {
    let listing = "web_1\ndb_1\nweb_2\n";
    assert_eq!(container_with_prefix(listing, "web"), Some("web_1".to_string()));
    assert_eq!(container_with_prefix(listing, "db"), Some("db_1".to_string()));
    assert_eq!(container_with_prefix(listing, "web_2"), Some("web_2".to_string()));
    assert_eq!(container_with_prefix(listing, "cache"), None);
    assert_eq!(container_with_prefix(listing, "b_1"), None);
    // the empty prefix finds the first name
    assert_eq!(container_with_prefix(listing, ""), Some("web_1".to_string()));
    assert_eq!(container_with_prefix("", ""), None);
    assert_eq!(container_with_prefix("", "x"), None);
    // without a newline at the end, and with an empty line
    assert_eq!(container_with_prefix("a\n\nbc", "b"), Some("bc".to_string()));
    assert_eq!(container_with_prefix("\nbc", ""), Some(String::new()));
    // a prefix does not reach over the end of a line
    assert_eq!(container_with_prefix("ab\ncd", "ab\nc"), None);
}
