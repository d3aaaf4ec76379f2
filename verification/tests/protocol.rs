use git_remote_k8s::protocol::check_white_space;
use git_remote_k8s::protocol::first_two_words;
use git_remote_k8s::protocol::negotiate_step;
use git_remote_k8s::protocol::LineReader;
use git_remote_k8s::protocol::ProtocolAction;
use git_remote_k8s::protocol::ProtocolError;

/// Feeds bytes to a reader and collects the lines it completes.
fn lines_of(bytes: &[u8]) -> (Vec<String>, LineReader) {
    let mut reader = LineReader::new();
    let mut lines = Vec::new();
    for &b in bytes {
        if let Some(line) = reader.feed(b) {
            lines.push(line);
        }
    }
    (lines, reader)
}

#[test]
fn line_reader_splits_at_newlines() {
    let (lines, _) = lines_of(b"capabilities\nconnect git-upload-pack\n\n");
    assert_eq!(lines, vec!["capabilities", "connect git-upload-pack", ""]);
}

#[test]
fn line_reader_keeps_an_unfinished_line() {
    let (lines, mut reader) = lines_of(b"abc\ndef");
    assert_eq!(lines, vec!["abc"]);
    assert_eq!(reader.feed(b'\n'), Some("def".to_string()));
}

#[test]
fn line_reader_maps_each_byte_to_one_char() {
    let (lines, _) = lines_of(&[0x63, 0xe9, 0x85, 0xff, b'\n']);
    assert_eq!(lines, vec!["c\u{e9}\u{85}\u{ff}".to_string()]);
}

#[test]
fn white_space_is_unicode_white_space() {
    for code in 0u32..=0x10ffff {
        if let Some(c) = char::from_u32(code) {
            assert_eq!(check_white_space(c), c.is_whitespace(), "char {:#x}", code);
        }
    }
}

#[test]
fn first_two_words_agree_with_split_whitespace() {
    let lines = [
        "",
        "   ",
        "capabilities",
        "  connect   git-upload-pack  ",
        "connect\tgit-receive-pack extra",
        "a\u{85}b\u{a0}c",
        "\u{3000}x\u{2028}y",
    ];
    for line in lines {
        let mut it = line.split_whitespace();
        let first = it.next().map(|s| s.to_string());
        let second = it.next().map(|s| s.to_string());
        assert_eq!(first_two_words(line), (first, second), "line {:?}", line);
    }
}

#[test]
fn capabilities_are_answered_with_connect() {
    match negotiate_step("capabilities") {
        Ok(ProtocolAction::Reply(bytes)) => assert_eq!(bytes, b"connect\n\n".to_vec()),
        _ => panic!("expected a reply"),
    }
    match negotiate_step("  capabilities  ignored") {
        Ok(ProtocolAction::Reply(bytes)) => assert_eq!(bytes, b"connect\n\n".to_vec()),
        _ => panic!("expected a reply"),
    }
}

#[test]
fn connect_ends_the_negotiation() {
    match negotiate_step("connect git-upload-pack") {
        Ok(ProtocolAction::Connect(service)) => assert_eq!(service, "git-upload-pack"),
        _ => panic!("expected a connect"),
    }
    match negotiate_step("\tconnect  git-receive-pack  more") {
        Ok(ProtocolAction::Connect(service)) => assert_eq!(service, "git-receive-pack"),
        _ => panic!("expected a connect"),
    }
}

#[test]
fn refused_commands() {
    assert!(matches!(negotiate_step(""), Err(ProtocolError::NoCommandGiven)));
    assert!(matches!(negotiate_step(" \t "), Err(ProtocolError::NoCommandGiven)));
    assert!(matches!(negotiate_step("connect"), Err(ProtocolError::NoServiceGiven)));
    match negotiate_step("list for-push") {
        Err(ProtocolError::UnknownCommand(c)) => assert_eq!(c, "list"),
        _ => panic!("expected an unknown command"),
    }
    assert!(matches!(negotiate_step("Capabilities"), Err(ProtocolError::UnknownCommand(_))));
}

#[test]
fn protocol_error_messages() {
    assert_eq!(ProtocolError::NoCommandGiven.message(), "no command given via git protocol");
    assert_eq!(ProtocolError::NoServiceGiven.message(), "no service given to connect command");
    assert_eq!(
        ProtocolError::UnknownCommand("x".to_string()).message(),
        "unknown command specified"
    );
}

/// Plays the negotiation as the helper does: bytes go to the line reader,
/// each line is answered, replies are written, and reading stops at the
/// first answer that is no reply.
fn negotiate(bytes: &[u8]) -> (Vec<u8>, Option<Result<String, ProtocolError>>, usize) {
    let mut reader = LineReader::new();
    let mut written = Vec::new();
    for (i, &b) in bytes.iter().enumerate() {
        if let Some(line) = reader.feed(b) {
            match negotiate_step(&line) {
                Ok(ProtocolAction::Reply(r)) => written.extend(r),
                Ok(ProtocolAction::Connect(s)) => return (written, Some(Ok(s)), i + 1),
                Err(e) => return (written, Some(Err(e)), i + 1),
            }
        }
    }
    (written, None, bytes.len())
}

#[test]
fn capabilities_then_connect() {
    let input = b"capabilities\ncapabilities\nconnect git-upload-pack\n0032want abc\n";
    let (written, end, read) = negotiate(input);
    assert_eq!(written, b"connect\n\nconnect\n\n".to_vec());
    assert_eq!(end, Some(Ok("git-upload-pack".to_string())));
    assert_eq!(read, "capabilities\ncapabilities\nconnect git-upload-pack\n".len());
}

#[test]
fn negotiation_stops_at_a_refused_command() {
    let (written, end, read) = negotiate(b"capabilities\nlist\nconnect x\n");
    assert_eq!(written, b"connect\n\n".to_vec());
    assert_eq!(end, Some(Err(ProtocolError::UnknownCommand("list".to_string()))));
    assert_eq!(read, "capabilities\nlist\n".len());
}
