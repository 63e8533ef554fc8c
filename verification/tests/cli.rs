use mtdi::cli::args::{ending, parse_args, parse_number, print_help, AppArgs, Stop, Valued};
use mtdi::cli::mode::{
    choose_mode, compiled_line, compiling_line, dylib_source, handle_signal, missing_dylib,
    DylibSource, Mode,
};
use mtdi::cli::spawn::{
    check_sip_and_codesign, finished_line, has_dyld_entitlement, has_hardened_runtime,
    is_sip_enabled, refused_line, spawn_target, tool_text, Tool, Verdict,
};
use mtdi::events::filter::{unknown_call, KNOWN_CALLS};

fn parse(words: &[&str]) -> Result<AppArgs, Stop> {
    parse_args(&words.iter().map(|w| w.to_string()).collect())
}

#[test]
fn options_come_before_the_command() {
    let a = parse(&["-o", "out.log", "-t", "open", "-j", "--ecs", "ls", "-l", "-o"]).unwrap();
    assert_eq!(a.output_file.as_deref(), Some("out.log"));
    assert_eq!(a.trace_filter.as_deref(), Some("open"));
    assert!(a.json_output && a.ecs_output && !a.ndump && !a.legacy_unwind && !a.check_only);
    assert_eq!(a.cmd_name.as_deref(), Some("ls"));
    assert_eq!(a.cmd_args, vec!["-l", "-o"]);
    assert_eq!((a.target_pid, a.script_file, a.custom_dylib), (None, None, None));
}

#[test]
fn the_command_keeps_its_words() {
    let a = parse(&["./bin", "-o", "out.log", "--help", "-p"]).unwrap();
    assert_eq!(a.cmd_name.as_deref(), Some("./bin"));
    assert_eq!(a.cmd_args, vec!["-o", "out.log", "--help", "-p"]);
    assert_eq!(a.output_file, None);
}

#[test]
fn options_have_other_names() {
    for s in ["-s", "--script", "--sandboxed", "--swap"] {
        assert_eq!(parse(&[s, "p.rs", "c"]).unwrap().script_file.as_deref(), Some("p.rs"));
    }
    assert_eq!(parse(&["--load", "x.dylib", "c"]).unwrap().custom_dylib.as_deref(), Some("x.dylib"));
    assert!(parse(&["-ndump", "c"]).unwrap().ndump);
    assert!(parse(&["--ndump", "c"]).unwrap().ndump);
    assert!(parse(&["-u", "c"]).unwrap().legacy_unwind);
    assert!(parse(&["--legacy-unwind", "c"]).unwrap().legacy_unwind);
    assert!(parse(&["--json", "c"]).unwrap().json_output);
    assert_eq!(parse(&["-o", "a", "--output", "b", "c"]).unwrap().output_file.as_deref(), Some("b"));
}

#[test]
fn attaching_takes_no_command() {
    let a = parse(&["-p", "1234", "ls", "-l"]).unwrap();
    assert_eq!(a.target_pid, Some(1234));
    assert_eq!(a.cmd_name, None);
    assert!(a.cmd_args.is_empty());
    assert_eq!(parse(&["--pid", "-7"]).unwrap().target_pid, Some(-7));
}

#[test]
fn checking_needs_no_command() {
    let a = parse(&["-u", "--check-only", "-s", "p.rs"]).unwrap();
    assert!(a.check_only);
    assert_eq!(a.cmd_name, None);
    let a = parse(&["-c", "-s", "p.rs", "ls"]).unwrap();
    assert_eq!(a.cmd_name.as_deref(), Some("ls"));
}

#[test]
fn broken_command_lines_are_told_apart() {
    assert!(matches!(parse(&[]), Err(Stop::NoArguments)));
    assert!(matches!(parse(&["-j"]), Err(Stop::NoCommand)));
    for h in ["-h", "-help", "--help"] {
        assert!(matches!(parse(&["-j", h, "-x"]), Err(Stop::Help)));
    }
    assert!(matches!(parse(&["-p", "12x"]), Err(Stop::InvalidPid)));
    match parse(&["--nope", "ls"]) {
        Err(Stop::UnknownArgument(w)) => assert_eq!(w, "--nope"),
        other => panic!("{:?}", other),
    }
    for (w, option) in [
        ("-o", Valued::Output),
        ("--trace", Valued::Trace),
        ("-p", Valued::Pid),
        ("-l", Valued::Load),
        ("-s", Valued::Script),
    ] {
        match parse(&[w]) {
            Err(Stop::MissingValue(o)) => assert_eq!(o, option),
            other => panic!("{:?}", other),
        }
    }
}

#[test]
fn numbers_are_signed_and_bounded() {
    assert_eq!(parse_number("0"), Some(0));
    assert_eq!(parse_number("+17"), Some(17));
    assert_eq!(parse_number("-2147483648"), Some(i32::MIN));
    assert_eq!(parse_number("2147483647"), Some(i32::MAX));
    assert_eq!(parse_number("00000000000000000000000012"), Some(12));
    for bad in ["", "-", "+", "+-1", "2147483648", "-2147483649", "99999999999999999999999", "1 ", "0x1", "\u{661}"] {
        assert_eq!(parse_number(bad), None, "{:?}", bad);
        assert!(bad.parse::<i32>().is_err());
    }
}

#[test]
fn the_program_says_why_it_ends() {
    let e = ending(&Stop::Help);
    assert_eq!((e.help, e.lines.len(), e.status), (true, 0, 0));
    let e = ending(&Stop::NoArguments);
    assert_eq!((e.help, e.lines.len(), e.status), (true, 0, 1));
    let e = ending(&Stop::UnknownArgument("-x".to_string()));
    assert_eq!(e.lines, vec!["Unknown argument: -x", "Use -h or --help for usage information."]);
    assert_eq!((e.help, e.status), (false, 1));
    for (stop, line) in [
        (Stop::NoCommand, "Error: No command specified to trace."),
        (Stop::MissingValue(Valued::Output), "Error: -o requires a file path"),
        (Stop::MissingValue(Valued::Trace), "Error: -t requires a comma-separated list of syscalls"),
        (Stop::MissingValue(Valued::Pid), "Error: -p requires a PID"),
        (Stop::MissingValue(Valued::Load), "Error: -l requires a path to a dylib"),
        (Stop::MissingValue(Valued::Script), "Error: -s requires a safe Rust probe script (.rs)"),
    ] {
        let e = ending(&stop);
        assert_eq!(e.lines, vec![line]);
        assert_eq!(e.status, 1);
    }
    let e = ending(&Stop::InvalidPid);
    assert_eq!((e.lines, e.status), (vec!["Invalid PID.".to_string()], 101));
}

#[test]
fn the_help_names_every_option() {
    let help = print_help();
    assert!(help.starts_with("mtdi - High-speed macOS user-space dynamic instrumentation\n\nUsage: "));
    for option in ["-s, --script", "-l, --load", "-p, --pid", "-t, --trace", "-o, --output", "-j, --json", "-e, --ecs", "-u, --legacy-unwind", "-c, --check-only", "-h, --help"] {
        assert!(help.contains(option), "{}", option);
    }
    assert!(help.ends_with("  mtdi -l custom_hook.dylib -p 1234\n"));
}

#[test]
fn tools_are_read_by_what_they_print() {
    assert!(is_sip_enabled("System Integrity Protection status: enabled."));
    assert!(!is_sip_enabled("System Integrity Protection status: disabled."));
    assert!(has_hardened_runtime("CodeDirectory v=20500 flags=0x10000(runtime) hashes=1"));
    assert!(!has_hardened_runtime("CodeDirectory v=20500 flags=0x0(none)"));
    assert!(has_dyld_entitlement("<key>com.apple.security.cs.disable-library-validation</key>"));
    assert!(has_dyld_entitlement("com.apple.security.cs.allow-dyld-environment-variables"));
    assert!(!has_dyld_entitlement("com.apple.security.cs.allow-jit"));
    assert_eq!(tool_text(b"plain"), "plain");
    assert_eq!(tool_text(&[b'a', 0xFF, b'b']), "a\u{FFFD}b");
}

fn verdict(path: &str, file: &str, sip: &str, signature: &str, entitlements: &str) -> (Option<String>, Vec<Tool>) {
    let mut asked = Vec::new();
    let mut tool = Tool::File;
    loop {
        asked.push(tool);
        let output = match tool {
            Tool::File => file,
            Tool::Sip => sip,
            Tool::Signature => signature,
            Tool::Entitlements => entitlements,
        };
        match check_sip_and_codesign(path, tool, output) {
            Verdict::Ask(next) => tool = next,
            Verdict::Allowed => return (None, asked),
            Verdict::Refused(reason) => return (Some(reason), asked),
        }
    }
}

#[test]
fn protected_binaries_are_refused() {
    let (reason, asked) = verdict("/opt/x", "Mach-O 64-bit executable arm64e", "", "", "");
    assert_eq!(
        reason.unwrap(),
        "'/opt/x' is an arm64e binary: dyld refuses to load a standard arm64 dylib into it (Apple restricts PAC-enabled arm64e to their own components)."
    );
    assert_eq!(asked, vec![Tool::File]);
    for path in ["/bin/ls", "/usr/bin/curl", "/sbin/x", "/usr/sbin/x", "/System/x"] {
        let (reason, asked) = verdict(path, "arm64", "enabled", "", "");
        assert_eq!(
            reason.unwrap(),
            format!("SIP is enabled and '{}' is an Apple system binary: DYLD_INSERT_LIBRARIES is stripped, launch-time injection cannot work.", path)
        );
        assert_eq!(asked, vec![Tool::File, Tool::Sip]);
        assert_eq!(verdict(path, "arm64", "off", "flags=0x10000(runtime)", "").0, None);
    }
    let (reason, asked) = verdict("/opt/bin/x", "arm64", "enabled", "flags=0x10000(runtime)", "");
    assert_eq!(
        reason.unwrap(),
        "'/opt/bin/x' enforces the Hardened Runtime without allow-dyld-environment-variables or disable-library-validation: DYLD_INSERT_LIBRARIES will be stripped."
    );
    assert_eq!(asked.len(), 4);
}

#[test]
fn other_binaries_are_launched() {
    let (reason, asked) = verdict("/opt/bin/x", "arm64", "enabled", "flags=0x0(none)", "");
    assert_eq!((reason, asked.len()), (None, 3));
    let (reason, asked) = verdict(
        "/usr/local/bin/x",
        "arm64",
        "enabled",
        "flags=0x10000(runtime)",
        "com.apple.security.cs.disable-library-validation",
    );
    assert_eq!((reason, asked.len()), (None, 4));
    assert_eq!(refused_line("no"), "[mtdi] no");
}

#[test]
fn targets_are_given_their_environment() {
    let a = parse(&["-o", "out", "-t", "open", "-j", "-e", "cmd", "x", "y"]).unwrap();
    let launch = spawn_target(&a, "/lib.dylib");
    assert_eq!(launch.command, "cmd");
    assert_eq!(launch.args, vec!["x", "y"]);
    let pairs: Vec<(&str, &str)> = launch.env.iter().map(|(k, v)| (k.as_str(), v.as_str())).collect();
    assert_eq!(
        pairs,
        vec![
            ("DYLD_INSERT_LIBRARIES", "/lib.dylib"),
            ("MTDI_OUTPUT", "out"),
            ("MTDI_FILTER", "open"),
            ("MTDI_JSON", "1"),
            ("MTDI_ECS", "1"),
            ("MTDI_OWN_SIGTERM", "1"),
        ]
    );
    let launch = spawn_target(&parse(&["cmd"]).unwrap(), "/l");
    assert_eq!(launch.env.len(), 2);
    assert_eq!(launch.env[1].0, "MTDI_OWN_SIGTERM");
}

#[test]
fn commands_are_reported_when_they_end() {
    assert_eq!(finished_line("ls", true, "?"), "[mtdi] Command 'ls' finished successfully!");
    assert_eq!(
        finished_line("ls", false, "exit status: 2"),
        "[mtdi] Command 'ls' exited with status: exit status: 2"
    );
}

#[test]
fn filters_name_known_calls() {
    let stop = parse(&["-t", "open, nosuchcall,alsonot", "ls"]).unwrap_err();
    let end = ending(&stop);
    assert_eq!((end.help, end.status), (false, 1));
    assert_eq!(end.lines[0], "Error: unknown syscall in -t: nosuchcall");
    assert_eq!(end.lines[1], format!("Known syscalls: {}", KNOWN_CALLS));
    assert!(parse(&["-t", "openx", "ls"]).is_err());
    assert!(parse(&["-t", "nosuchcall", "-p", "9"]).is_err());
    let all = parse(&["-t", KNOWN_CALLS, "ls"]).unwrap();
    assert_eq!(all.trace_filter.as_deref(), Some(KNOWN_CALLS));
    assert_eq!(KNOWN_CALLS.split(", ").count(), 25);
    assert!(KNOWN_CALLS.split(", ").all(|name| unknown_call(name).is_none()));
    for list in ["open", " open ,read", "", "open,"] {
        assert!(parse(&["-t", list, "ls"]).is_ok());
    }
}

#[test]
fn dylibs_come_from_probes_first() {
    let both = parse(&["-s", "p.rs", "-l", "x.dylib", "c"]).unwrap();
    assert!(matches!(dylib_source(&both), DylibSource::Script(p) if p == "p.rs"));
    let custom = parse(&["-l", "x.dylib", "c"]).unwrap();
    assert!(matches!(dylib_source(&custom), DylibSource::Custom(p) if p == "x.dylib"));
    assert!(matches!(dylib_source(&parse(&["c"]).unwrap()), DylibSource::BuiltIn));
}

#[test]
fn modes_are_chosen_from_the_options() {
    assert_eq!(choose_mode(&parse(&["c"]).unwrap()), Ok(Mode::Launch));
    assert_eq!(choose_mode(&parse(&["-p", "9"]).unwrap()), Ok(Mode::Attach(9)));
    assert_eq!(choose_mode(&parse(&["-c", "-s", "p.rs"]).unwrap()), Ok(Mode::CheckOnly));
    assert_eq!(choose_mode(&parse(&["-c", "-s", "p.rs", "-p", "9"]).unwrap()), Ok(Mode::CheckOnly));
    assert!(choose_mode(&parse(&["-c", "-p", "9"]).unwrap()).is_err());
    assert_eq!(
        choose_mode(&parse(&["-c", "ls"]).unwrap()),
        Err("Error: --check-only requires -s".to_string())
    );
    for option in [&["-o", "f"][..], &["-t", "open"], &["-j"], &["-e"]] {
        let mut words = option.to_vec();
        words.extend(["-p", "9"]);
        let e = choose_mode(&parse(&words).unwrap()).unwrap_err();
        assert!(e.ends_with("a running target's environment can't be set by attach"));
    }
    assert_eq!(choose_mode(&parse(&["-l", "d", "-p", "9"]).unwrap()), Ok(Mode::Attach(9)));
}

#[test]
fn the_program_reports_its_dylib() {
    assert_eq!(compiling_line("p.rs"), "[mtdis] Verifying and compiling safe probe: p.rs...");
    assert_eq!(compiled_line("/d"), "[mtdis] Successfully compiled sandboxed probe to /d");
    assert_eq!(missing_dylib("/d", true), vec!["[mtdi] Error: Dylib not found at /d"]);
    assert_eq!(
        missing_dylib("/d", false),
        vec![
            "[mtdi] Error: Dylib not found at /d",
            "[mtdi] Make sure you built the project with `cargo build`"
        ]
    );
}

#[test]
fn signals_go_to_the_child() {
    assert_eq!(handle_signal(0), None);
    assert_eq!(handle_signal(77), Some(77));
}
