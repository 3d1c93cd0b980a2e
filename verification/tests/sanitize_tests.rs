use gitmirrors::sanitize::sanitize_ssh_key;

#[test]
fn normalises_crlf_and_drops_blank_lines() {
    assert_eq!(sanitize_ssh_key("line1\r\n\r\nline2"), "line1\nline2\n");
}

#[test]
fn lone_carriage_return_splits_lines() {
    assert_eq!(sanitize_ssh_key("a\rb"), "a\nb\n");
}

#[test]
fn trims_each_line() {
    assert_eq!(sanitize_ssh_key("  key  "), "key\n");
    assert_eq!(sanitize_ssh_key("\tx\t\n"), "x\n");
    assert_eq!(sanitize_ssh_key(" a b \n\t c \t"), "a b\nc\n");
}

#[test]
fn trims_all_unicode_whitespace() {
    assert_eq!(sanitize_ssh_key("\u{000B}"), "\n");
    assert_eq!(sanitize_ssh_key("\u{00A0}key\u{00A0}"), "key\n");
    assert_eq!(sanitize_ssh_key("\u{000C}a\n\u{2003}b\u{202F}\n\u{3000}\u{0085}"), "a\nb\n");
}

#[test]
fn empty_input_yields_single_newline() {
    assert_eq!(sanitize_ssh_key(""), "\n");
    assert_eq!(sanitize_ssh_key("\n\n\n"), "\n");
    assert_eq!(sanitize_ssh_key(" \t \r\n \t "), "\n");
}

#[test]
fn exactly_one_trailing_newline() {
    assert_eq!(sanitize_ssh_key("abc"), "abc\n");
    assert_eq!(sanitize_ssh_key("abc\n"), "abc\n");
    assert_eq!(sanitize_ssh_key("abc\n\n\n"), "abc\n");
}

#[test]
fn sanitize_is_idempotent() {
    let inputs = [
        "",
        "-----BEGIN KEY-----\r\nAAAA\r\n  BBBB  \r\n\r\n-----END KEY-----\r\n",
        "  a  \n\n b ",
        "\r\r\n\n",
        "one line",
    ];
    for raw in inputs {
        let once = sanitize_ssh_key(raw);
        let twice = sanitize_ssh_key(&once);
        assert_eq!(twice, once);
    }
}

#[test]
fn output_is_clean() {
    let inputs = ["", "a\r\nb", "  x  \r\n\r\n  y  ", "\r\r\r", "k\ty"];
    for raw in inputs {
        let out = sanitize_ssh_key(raw);
        assert!(out.ends_with('\n'));
        assert!(!out.ends_with("\n\n"));
        assert!(!out.contains('\r'));
        assert!(!out.contains("\n\n"));
        if out.len() > 1 {
            assert!(!out.starts_with('\n'));
            assert!(!out.starts_with(' '));
        }
    }
}

#[test]
fn realistic_key_material_round_trip() {
    let raw = "SECRET-REDACTED";
    let cleaned = sanitize_ssh_key(raw);
    assert_eq!(
        cleaned,
        "SECRET-REDACTED\n"
    );
}
