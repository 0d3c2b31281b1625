use adbr::commands::{devices_listing, forward_set_command, logcat_shell_command, reboot_command, reverse_set_command, shell_command, tcpip_command};
use adbr::host::{
    decode_double_ok_reply, decode_payload_reply, decode_shell_reply, decode_status_reply,
    decode_stream_reply, encode_request, Progress,
};
use adbr::wire::{hex4_bytes, parse_hex4, parse_u16, parse_u64};
use adbr::{strip_adb_prefix, AdbError, DeviceTransport};

fn text_of(p: Progress<Result<String, AdbError>>) -> String {
    match p {
        Progress::Done(Ok(s)) => s,
        other => panic!("expected text, got {:?}", other),
    }
}

#[test]
fn transports_carry_their_host_request() {
    assert_eq!(DeviceTransport::default().get_device_transport(), "host:transport-any");
    assert_eq!(DeviceTransport::default_usb().get_device_transport(), "host:transport-usb");
    assert_eq!(DeviceTransport::default_emulator().get_device_transport(), "host:transport-local");
    assert_eq!(DeviceTransport::usb("emulator-5554".to_string()).get_device_transport(), "host:transport:emulator-5554");
}

#[test]
fn strip_prefix_removes_one_marker() {
    assert_eq!(strip_adb_prefix("$abc".to_string()), "abc");
    assert_eq!(strip_adb_prefix("+abc".to_string()), "abc");
    assert_eq!(strip_adb_prefix("++abc".to_string()), "+abc");
    assert_eq!(strip_adb_prefix("abc".to_string()), "abc");
    assert_eq!(strip_adb_prefix(String::new()), "");
}

#[test]
fn request_prefix_is_lowercase_hex_length() {
    assert_eq!(encode_request("host:devices").unwrap(), b"000chost:devices".to_vec());
    assert_eq!(encode_request("").unwrap(), b"0000".to_vec());
    let long = "x".repeat(0xabc);
    let framed = encode_request(&long).unwrap();
    assert_eq!(&framed[..4], b"0abc");
    assert_eq!(parse_hex4(&framed[..4]), Some(long.len()));
    assert_eq!(&framed[4..], long.as_bytes());
}

#[test]
fn request_prefix_reads_back_for_many_lengths() {
    for n in [0usize, 1, 9, 10, 15, 16, 255, 256, 4095, 4096, 65535] {
        let cmd = "a".repeat(n);
        let framed = encode_request(&cmd).unwrap();
        assert_eq!(parse_hex4(&framed[..4]), Some(n));
        assert_eq!(framed.len(), n + 4);
    }
    assert_eq!(hex4_bytes(0xbeef), b"beef".to_vec());
}

#[test]
fn request_too_long_is_refused() {
    let cmd = "a".repeat(65536);
    assert!(matches!(encode_request(&cmd), Err(AdbError::Argument(_))));
}

#[test]
fn hex_prefix_parsing() {
    assert_eq!(parse_hex4(b"001c"), Some(28));
    assert_eq!(parse_hex4(b"001C"), Some(28));
    assert_eq!(parse_hex4(b"OKAY"), None);
    assert_eq!(parse_hex4(b"12"), None);
}

#[test]
fn decimal_parsing() {
    assert_eq!(parse_u64("5037"), Some(5037));
    assert_eq!(parse_u64("+7"), Some(7));
    assert_eq!(parse_u64("18446744073709551615"), Some(u64::MAX));
    assert_eq!(parse_u64("18446744073709551616"), None);
    assert_eq!(parse_u64(""), None);
    assert_eq!(parse_u64("+"), None);
    assert_eq!(parse_u64("12a"), None);
    assert_eq!(parse_u16("65535"), Some(65535));
    assert_eq!(parse_u16("65536"), None);
}

#[test]
fn devices_reply_with_short_prefix() {
    // The prefix 0x13 announces 19 bytes, so the payload ends inside "device".
    let reply = b"OKAY0013emulator-5554\tdevice\n";
    let text = text_of(decode_payload_reply(reply, true));
    assert_eq!(text, "emulator-5554\tdevic");
    assert_eq!(devices_listing(&text), "List of devices attached\nemulator-5554\tdevic");
}

#[test]
fn devices_listing_with_exact_prefix() {
    let reply = b"OKAY0015emulator-5554\tdevice\n";
    let out = devices_listing(&text_of(decode_payload_reply(reply, true)));
    assert!(out.contains("List of devices attached\nemulator-5554\tdevice"));
    assert_eq!(out, "List of devices attached\nemulator-5554\tdevice\n");
}

#[test]
fn payload_decoder_asks_for_what_is_missing() {
    let full = b"OKAY0015emulator-5554\tdevice\n";
    assert!(matches!(decode_payload_reply(&full[..0], false), Progress::Need(4)));
    assert!(matches!(decode_payload_reply(&full[..4], false), Progress::Need(4)));
    assert!(matches!(decode_payload_reply(&full[..8], false), Progress::Need(21)));
    assert!(matches!(decode_payload_reply(&full[..10], false), Progress::Need(19)));
    assert_eq!(text_of(decode_payload_reply(full, false)), "emulator-5554\tdevice\n");
}

#[test]
fn payload_cut_short_reads_as_empty() {
    assert_eq!(text_of(decode_payload_reply(b"OKAY0010abc", true)), "");
    assert_eq!(text_of(decode_payload_reply(b"OKAY", true)), "");
}

#[test]
fn payload_without_hex_prefix_runs_to_the_end() {
    assert!(matches!(decode_payload_reply(b"OKAYhello", false), Progress::NeedToEnd));
    assert_eq!(text_of(decode_payload_reply(b"OKAYhello world", true)), "hello world");
}

#[test]
fn payload_strips_prefix_marker() {
    assert_eq!(text_of(decode_payload_reply(b"OKAY0004$abc", true)), "abc");
}

#[test]
fn payload_that_is_not_utf8_is_a_protocol_error() {
    let reply = [b'O', b'K', b'A', b'Y', b'0', b'0', b'0', b'2', 0xff, 0xfe];
    assert!(matches!(decode_payload_reply(&reply, true), Progress::Done(Err(AdbError::Protocol(_)))));
}

#[test]
fn forward_list_with_long_prefix() {
    // 0x1c announces 28 bytes; only 18 come before the stream ends.
    assert!(matches!(decode_payload_reply(b"OKAY001ctcp:8000 tcp:9000\n", false), Progress::Need(10)));
    assert_eq!(text_of(decode_payload_reply(b"OKAY001ctcp:8000 tcp:9000\n", true)), "");
}

#[test]
fn forward_list_with_exact_prefix() {
    let out = text_of(decode_payload_reply(b"OKAY0012tcp:8000 tcp:9000\n", true));
    assert!(out.contains("tcp:8000 tcp:9000"));
}

#[test]
fn fail_status_carries_server_message() {
    // 0x0005 announces five bytes of the six that follow.
    match decode_status_reply(b"FAIL0005ENOENT", true) {
        Progress::Done(Err(AdbError::ServerReject(m))) => assert_eq!(m, "ENOEN"),
        other => panic!("unexpected {:?}", other),
    }
    match decode_status_reply(b"FAIL0006ENOENT", true) {
        Progress::Done(Err(AdbError::ServerReject(m))) => assert!(m.contains("ENOENT")),
        other => panic!("unexpected {:?}", other),
    }
    match decode_payload_reply(b"FAIL0010device not found", true) {
        Progress::Done(Err(AdbError::ServerReject(m))) => assert_eq!(m, "device not found"),
        other => panic!("unexpected {:?}", other),
    }
}

#[test]
fn okay_status_is_success() {
    assert!(matches!(decode_status_reply(b"OKAY", false), Progress::Done(Ok(()))));
    assert!(matches!(decode_status_reply(b"OK", false), Progress::Need(2)));
}

#[test]
fn unknown_status_is_a_protocol_error() {
    let e = decode_status_reply(b"WHAT0003abc", true);
    match e {
        Progress::Done(Err(err @ AdbError::Protocol(_))) => assert!(err.message().contains("abc")),
        other => panic!("unexpected {:?}", other),
    }
    assert!(matches!(decode_status_reply(b"OK", true), Progress::Done(Err(AdbError::Protocol(_)))));
}

#[test]
fn shell_echo_output() {
    let out = text_of(decode_shell_reply(b"OKAYtest\n", true));
    assert_eq!(out, "test\n");
    assert_eq!(out.trim(), "test");
    assert!(matches!(decode_shell_reply(b"OKAYtest\n", false), Progress::NeedToEnd));
}

#[test]
fn shell_fail_message_is_the_result() {
    assert_eq!(text_of(decode_shell_reply(b"FAIL0007closed!", true)), "closed!");
}

#[test]
fn stream_reply_keeps_prefix_markers() {
    assert_eq!(text_of(decode_stream_reply(b"OKAY$restarting adbd as root\n", true)), "$restarting adbd as root\n");
}

#[test]
fn double_ok_reply_shapes() {
    assert_eq!(text_of(decode_double_ok_reply(b"OKAY", true)), "");
    assert!(matches!(decode_double_ok_reply(b"OKAY", false), Progress::Need(4)));
    assert_eq!(text_of(decode_double_ok_reply(b"OKAYOKAY", true)), "");
    assert_eq!(text_of(decode_double_ok_reply(b"OKAYOKAY00045000", true)), "5000");
    match decode_double_ok_reply(b"OKAYFAIL0006in use", true) {
        Progress::Done(Err(AdbError::ServerReject(m))) => assert_eq!(m, "in use"),
        other => panic!("unexpected {:?}", other),
    }
}

#[test]
fn command_texts() {
    assert_eq!(forward_set_command("tcp:8000", "tcp:9000", false), "host:forward:tcp:8000;tcp:9000");
    assert_eq!(forward_set_command("tcp:8000", "tcp:9000", true), "host:forward:norebind:tcp:8000;tcp:9000");
    assert_eq!(reverse_set_command("tcp:8000", "tcp:9000", true), "reverse:forward:norebind:tcp:8000;tcp:9000");
    assert_eq!(shell_command("echo test"), "shell:echo test");
    assert_eq!(tcpip_command(5555), "tcpip:5555");
    assert_eq!(logcat_shell_command("-d"), "export ANDROID_LOG_TAGS=\"\"; exec logcat -d");
    assert_eq!(reboot_command(None).unwrap(), "reboot:");
    assert_eq!(reboot_command(Some("recovery")).unwrap(), "reboot:recovery");
    match reboot_command(Some("moon")) {
        Err(AdbError::Argument(m)) => assert_eq!(m, "Invalid reboot target: moon"),
        other => panic!("unexpected {:?}", other),
    }
}

use adbr::host::labelled_error;
use adbr::wire::decimal_text;

#[test]
fn unknown_status_error_names_the_request() {
    let e = match decode_double_ok_reply(b"WHAT0003abc", true) {
        Progress::Done(Err(e)) => e,
        other => panic!("unexpected {:?}", other),
    };
    match labelled_error(e, "reverse:forward:tcp:1;tcp:2") {
        AdbError::Protocol(m) => {
            assert!(m.starts_with("Failed to send reverse:forward:tcp:1;tcp:2 command: "));
            assert!(m.ends_with("abc"));
        },
        other => panic!("unexpected {:?}", other),
    }
    match labelled_error(AdbError::ServerReject("closed".to_string()), "x") {
        AdbError::ServerReject(m) => assert_eq!(m, "closed"),
        other => panic!("unexpected {:?}", other),
    }
}

#[test]
fn decimal_digits() {
    assert_eq!(decimal_text(0), "0");
    assert_eq!(decimal_text(9), "9");
    assert_eq!(decimal_text(10), "10");
    assert_eq!(decimal_text(5037), "5037");
    assert_eq!(decimal_text(u64::MAX), "18446744073709551615");
}
