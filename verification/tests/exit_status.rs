use git_remote_k8s::exit_status::log_level;
use git_remote_k8s::exit_status::parse_decimal_u8;
use git_remote_k8s::exit_status::worker_exit_code;
use git_remote_k8s::exit_status::LogLevel;

#[test]
fn decimal_u8_agrees_with_from_str() {
    let alphabet = ['0', '1', '2', '5', '6', '9', '+', '-', ' ', 'a'];
    let mut frontier: Vec<String> = vec![String::new()];
    let mut all: Vec<String> = vec![String::new()];
    for _ in 0..4 {
        let mut next = Vec::new();
        for s in &frontier {
            for c in alphabet {
                let mut t = s.clone();
                t.push(c);
                next.push(t);
            }
        }
        all.extend(next.iter().cloned());
        frontier = next;
    }
    for s in &all {
        assert_eq!(parse_decimal_u8(s), s.parse::<u8>().ok(), "string {:?}", s);
    }
    for n in 0u32..1000 {
        let s = n.to_string();
        assert_eq!(parse_decimal_u8(&s), s.parse::<u8>().ok(), "string {:?}", s);
    }
}

#[test]
fn decimal_u8_examples() {
    assert_eq!(parse_decimal_u8("0"), Some(0));
    assert_eq!(parse_decimal_u8("255"), Some(255));
    assert_eq!(parse_decimal_u8("256"), None);
    assert_eq!(parse_decimal_u8("+7"), Some(7));
    assert_eq!(parse_decimal_u8("007"), Some(7));
    assert_eq!(parse_decimal_u8("0000000000000000000042"), Some(42));
    assert_eq!(parse_decimal_u8("-1"), None);
    assert_eq!(parse_decimal_u8("+"), None);
    assert_eq!(parse_decimal_u8(""), None);
    assert_eq!(parse_decimal_u8(" 1"), None);
}

#[test]
fn exit_code_of_a_failed_worker_command() {
    assert_eq!(worker_exit_code(Some("NonZeroExitCode"), Some("128")), 128);
    assert_eq!(worker_exit_code(Some("NonZeroExitCode"), Some("3")), 3);
    assert_eq!(worker_exit_code(Some("NonZeroExitCode"), Some("not a number")), 1);
    assert_eq!(worker_exit_code(Some("NonZeroExitCode"), Some("300")), 1);
    assert_eq!(worker_exit_code(Some("NonZeroExitCode"), None), 1);
    assert_eq!(worker_exit_code(Some("NonZeroExitCode"), Some("0")), 0);
}

#[test]
fn exit_code_of_a_successful_worker_command() {
    assert_eq!(worker_exit_code(None, None), 0);
    assert_eq!(worker_exit_code(None, Some("5")), 0);
    assert_eq!(worker_exit_code(Some("Success"), Some("5")), 0);
    assert_eq!(worker_exit_code(Some("nonzeroexitcode"), Some("5")), 0);
}

#[test]
fn log_levels() {
    assert_eq!(log_level(0), LogLevel::Warn);
    assert_eq!(log_level(1), LogLevel::Info);
    assert_eq!(log_level(2), LogLevel::Debug);
    assert_eq!(log_level(3), LogLevel::Trace);
    assert_eq!(log_level(255), LogLevel::Trace);
}
