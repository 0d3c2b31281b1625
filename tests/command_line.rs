use adbr::bugreport::{bugreport_file_name, classify_bugreport_line, find, BugreportLine};
use adbr::cli::parse_global_options;
use adbr::install::{plan_install, uninstall_command};
use adbr::scripting::{connect_error, connect_timeout_error, ends_session, parse_wait_for, server_address, wait_deadline, wait_reached};
use adbr::AdbError;

fn args(v: &[&str]) -> Vec<String> {
    v.iter().map(|s| s.to_string()).collect()
}

#[test]
fn last_transport_flag_wins() {
    let g = parse_global_options(&args(&["-s", "abc", "-d", "devices"])).unwrap();
    assert_eq!(g.transport.get_device_transport(), "host:transport-usb");
    assert_eq!(g.args, args(&["devices"]));
    let g = parse_global_options(&args(&["-d", "shell", "-e", "-s", "X", "ls"])).unwrap();
    assert_eq!(g.transport.get_device_transport(), "host:transport:X");
    assert_eq!(g.args, args(&["shell", "ls"]));
    let g = parse_global_options(&args(&["-s", "X", "push", "-e"])).unwrap();
    assert_eq!(g.transport.get_device_transport(), "host:transport-local");
    let g = parse_global_options(&args(&["devices"])).unwrap();
    assert_eq!(g.transport.get_device_transport(), "host:transport-any");
}

#[test]
fn server_options() {
    let g = parse_global_options(&args(&["-H", "10.0.0.2", "-P", "5555", "devices"])).unwrap();
    assert_eq!(g.server_address, Some("10.0.0.2".to_string()));
    assert_eq!(g.server_port, Some(5555));
    assert!(matches!(parse_global_options(&args(&["-P", "70000", "devices"])), Err(AdbError::Argument(_))));
    assert!(matches!(parse_global_options(&args(&["devices", "-s"])), Err(AdbError::Argument(_))));
    assert_eq!(server_address(Some("10.0.0.2"), Some(5555), None), "10.0.0.2:5555");
    assert_eq!(server_address(Some("h"), None, Some("x:1")), "h:5037");
    assert_eq!(server_address(None, Some(1), None), "127.0.0.1:1");
    assert_eq!(server_address(None, None, Some("10.1.1.1:6000")), "10.1.1.1:6000");
    assert_eq!(server_address(None, None, None), "127.0.0.1:5037");
}

#[test]
fn connection_errors_name_the_address() {
    match connect_error("127.0.0.1:5037", "refused") {
        AdbError::Transport(m) => assert!(m.starts_with("Failed to connect to ADB server at address 127.0.0.1:5037: refused. ")),
        other => panic!("unexpected {:?}", other),
    }
    match connect_timeout_error("h:1") {
        AdbError::Transport(m) => assert!(m.contains("ADB_ADDRESS")),
        other => panic!("unexpected {:?}", other),
    }
}

#[test]
fn install_refuses_sdcard_with_internal() {
    match plan_install("app.apk", &args(&["-s", "-f"])) {
        Err(AdbError::Argument(m)) => assert_eq!(m, "-s and -f flags are mutually exclusive"),
        other => panic!("unexpected {:?}", other),
    }
}

#[test]
fn install_plan() {
    let p = plan_install("build/app-debug.apk", &args(&["-r", "-d"])).unwrap();
    assert_eq!(p.remote_path, "/data/local/tmp/app-debug.apk");
    assert_eq!(p.pm_command, "pm install -r -d /data/local/tmp/app-debug.apk");
    assert!(p.warn_downgrade_replace);
    let q = plan_install("app.apk", &args(&[])).unwrap();
    assert_eq!(q.pm_command, "pm install /data/local/tmp/app.apk");
    assert!(!q.warn_downgrade_replace);
}

#[test]
fn uninstall_command_text() {
    assert_eq!(uninstall_command("com.example", &args(&["-k"])).unwrap(), "pm uninstall -k com.example");
    assert!(matches!(uninstall_command("", &args(&[])), Err(AdbError::Argument(_))));
}

#[test]
fn wait_for_times_out_when_state_never_comes() {
    let w = parse_wait_for("wait-for-device", &args(&["-t", "2"])).unwrap();
    assert_eq!(w.state, "device");
    assert_eq!(w.timeout_secs, Some(2));
    let offline: Result<String, AdbError> = Ok("offline".to_string());
    assert!(wait_deadline(&w.state, 0, w.timeout_secs).is_ok());
    assert!(!wait_reached(&w.state, &offline));
    assert!(wait_deadline(&w.state, 1000, w.timeout_secs).is_ok());
    assert!(wait_deadline(&w.state, 1999, w.timeout_secs).is_ok());
    match wait_deadline(&w.state, 2000, w.timeout_secs) {
        Err(AdbError::Transport(m)) => {
            assert!(m.contains("device"));
            assert_eq!(m, "Timeout while waiting for device to reach 'device' state");
        },
        other => panic!("unexpected {:?}", other),
    }
}

#[test]
fn wait_for_parsing() {
    let w = parse_wait_for("wait-for-usb-recovery", &args(&[])).unwrap();
    assert_eq!(w.state, "recovery");
    assert_eq!(w.timeout_secs, None);
    assert!(wait_reached("recovery", &Ok("recovery".to_string())));
    assert!(!wait_reached("recovery", &Err(AdbError::ServerReject("no device".to_string()))));
    assert!(matches!(parse_wait_for("wait-for-device", &args(&["-t"])), Err(AdbError::Argument(_))));
    assert!(matches!(parse_wait_for("wait-for-device", &args(&["-t", "x"])), Err(AdbError::Argument(_))));
    assert!(matches!(parse_wait_for("wait-for-device", &args(&["-q"])), Err(AdbError::Argument(_))));
    assert!(wait_deadline("device", u64::MAX, None).is_ok());
}

#[test]
fn exit_line_ends_interactive_shell() {
    assert!(ends_session(&b"ls\nexit\n".to_vec()));
    assert!(!ends_session(&b"exit".to_vec()));
    assert!(!ends_session(&b"exit\nls\n".to_vec()));
}

#[test]
fn bugreport_lines() {
    assert_eq!(classify_bugreport_line("PROGRESS:12/100\n"), BugreportLine::Progress(Some(12)));
    assert_eq!(classify_bugreport_line("PROGRESS:x/100"), BugreportLine::Progress(None));
    assert_eq!(classify_bugreport_line("  OK:/bugreports/b.zip \n"), BugreportLine::ZipPath("/bugreports/b.zip".to_string()));
    assert_eq!(classify_bugreport_line("XOK: /b.zip"), BugreportLine::ZipPath("/b.zip".to_string()));
    assert_eq!(classify_bugreport_line("INFO:started"), BugreportLine::Ignored);
    assert_eq!(classify_bugreport_line("   \n"), BugreportLine::Ignored);
    assert_eq!(classify_bugreport_line(" hello \n"), BugreportLine::Message("hello".to_string()));
    assert_eq!(bugreport_file_name("2024-01-02-03-04-05"), "bugreport-2024-01-02-03-04-05.zip");
    assert_eq!(find("abcabc", "ca"), Some(2));
    assert_eq!(find("abc", ""), Some(0));
    assert_eq!(find("abc", "abcd"), None);
}

#[test]
fn local_errors_keep_their_text() {
    let e = AdbError::LocalIo("disk full".to_string());
    assert_eq!(e.message(), "disk full");
}

use adbr::options::{command_kind, join_words, parse_install_args, parse_port_request, parse_transfer_args, parse_uninstall_args, CommandKind, PortRequest};

#[test]
fn subcommand_names() {
    assert_eq!(command_kind("devices"), CommandKind::Devices);
    assert_eq!(command_kind("shell"), CommandKind::Shell);
    assert_eq!(command_kind("reverse"), CommandKind::Reverse);
    assert_eq!(command_kind("reverse-x"), CommandKind::Unknown);
    assert_eq!(command_kind("wait-for-usb-device"), CommandKind::WaitFor);
    assert_eq!(command_kind("get-state"), CommandKind::GetState);
    assert_eq!(command_kind("uninstall"), CommandKind::Uninstall);
    assert_eq!(command_kind("install"), CommandKind::Install);
    assert_eq!(command_kind("frobnicate"), CommandKind::Unknown);
}

#[test]
fn forward_and_reverse_options() {
    assert_eq!(parse_port_request(&args(&["--list"]), false).unwrap(), PortRequest::List);
    assert!(matches!(parse_port_request(&args(&["--list", "x"]), false), Err(AdbError::Argument(_))));
    assert_eq!(parse_port_request(&args(&["--list", "x"]), true).unwrap(), PortRequest::List);
    assert_eq!(parse_port_request(&args(&["--remove-all"]), false).unwrap(), PortRequest::RemoveAll);
    assert_eq!(parse_port_request(&args(&["--remove", "tcp:8000"]), false).unwrap(), PortRequest::Remove("tcp:8000".to_string()));
    assert_eq!(
        parse_port_request(&args(&["tcp:8000", "tcp:9000"]), false).unwrap(),
        PortRequest::Bind("tcp:8000".to_string(), "tcp:9000".to_string(), false)
    );
    assert_eq!(
        parse_port_request(&args(&["--no-rebind", "tcp:8000", "tcp:9000"]), true).unwrap(),
        PortRequest::Bind("tcp:8000".to_string(), "tcp:9000".to_string(), true)
    );
    assert!(matches!(parse_port_request(&args(&["--no-rebind", "--remove", "x"]), false), Err(AdbError::Argument(_))));
    assert!(matches!(parse_port_request(&args(&["--bogus"]), false), Err(AdbError::Argument(_))));
    assert!(matches!(parse_port_request(&args(&["one"]), false), Err(AdbError::Argument(_))));
}

#[test]
fn transfer_operands() {
    let t = parse_transfer_args(&args(&["--sync", "a", "b", "/sdcard/"]), "--sync").unwrap();
    assert!(t.flag);
    assert_eq!(t.sources, args(&["a", "b"]));
    assert_eq!(t.target, "/sdcard/");
    let p = parse_transfer_args(&args(&["/sdcard/x", "."]), "-a").unwrap();
    assert!(!p.flag);
    assert_eq!(p.sources, args(&["/sdcard/x"]));
    assert!(matches!(parse_transfer_args(&args(&["-a", "x"]), "-a"), Err(AdbError::Argument(_))));
}

#[test]
fn install_and_uninstall_operands() {
    let (flags, apk) = parse_install_args(&args(&["-r", "app.apk", "-g"])).unwrap();
    assert_eq!(flags, args(&["-r", "-g"]));
    assert_eq!(apk, "app.apk");
    assert!(matches!(parse_install_args(&args(&["-r"])), Err(AdbError::Argument(_))));
    assert!(matches!(parse_install_args(&args(&["a.apk", "b.apk"])), Err(AdbError::Argument(_))));
    let (keep, package) = parse_uninstall_args(&args(&["-k", "com.example", "more"]));
    assert_eq!(keep, args(&["-k"]));
    assert_eq!(package, "com.example more");
    assert_eq!(join_words(&args(&["echo", "test"]), 0), "echo test");
    assert_eq!(join_words(&args(&["echo"]), 5), "");
}

#[test]
fn uninstall_without_package_name() {
    match uninstall_command("", &args(&["-k"])) {
        Err(AdbError::Argument(m)) => assert_eq!(m, "Package name is required"),
        other => panic!("unexpected {:?}", other),
    }
}

#[test]
fn wait_steps_time_out_at_first_late_check() {
    let steps: [u64; 4] = [0, 1001, 2002, 3003];
    let mut ended_at = None;
    for (i, elapsed) in steps.iter().enumerate() {
        if let Err(e) = wait_deadline("device", *elapsed, Some(2)) {
            assert!(e.message().contains("device"));
            ended_at = Some(i);
            break;
        }
        assert!(!wait_reached("device", &Ok("offline".to_string())));
    }
    assert_eq!(ended_at, Some(2));
}
