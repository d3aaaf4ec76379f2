use git_remote_k8s::config::Config;
use git_remote_k8s::config::ConfigError;

/// The configuration that the arguments `x x <url>` give.
fn config_for(url: &str) -> Config {
    Config {
        image: "alpine/git:latest".to_string(),
        remote_name: "x".to_string(),
        remote_url: url.to_string(),
        verbose: 0,
    }
}

#[test]
fn test_config_extractors() {
    let newcfg = config_for("k8s://test-context/test-namespace/test-pvc");
    assert_eq!("test-context", newcfg.get_remote_context().unwrap());
    assert_eq!("test-namespace", newcfg.get_remote_namespace().unwrap());
    assert_eq!("test-pvc", newcfg.get_remote_pvc().unwrap());
}

#[test]
fn test_config_extractors_relative() {
    let newcfg = config_for("k8s:test-context/test-namespace/test-pvc");
    assert_eq!("test-context", newcfg.get_remote_context().unwrap());
    assert_eq!("test-namespace", newcfg.get_remote_namespace().unwrap());
    assert_eq!("test-pvc", newcfg.get_remote_pvc().unwrap());
}

#[test]
fn test_config_extractors_omitted_schema() {
    let newcfg = config_for("test-context/test-namespace/test-pvc");
    assert_eq!("test-context", newcfg.get_remote_context().unwrap());
    assert_eq!("test-namespace", newcfg.get_remote_namespace().unwrap());
    assert_eq!("test-pvc", newcfg.get_remote_pvc().unwrap());
}

#[test]
fn test_config_extractors_omitted_schema_absolute_path() {
    let newcfg = config_for("/test-context/test-namespace/test-pvc");
    assert_eq!("test-context", newcfg.get_remote_context().unwrap());
    assert_eq!("test-namespace", newcfg.get_remote_namespace().unwrap());
    assert_eq!("test-pvc", newcfg.get_remote_pvc().unwrap());
}

#[test]
fn test_config_extractors_trailing_slash() {
    let newcfg = config_for("k8s://test-context/test-namespace/test-pvc/");
    assert_eq!(
        newcfg.get_remote_pvc().unwrap_err().message(),
        ConfigError::RemoteTrailingElements.message(),
    );
}

#[test]
fn test_config_extractors_too_many_elements() {
    let newcfg = config_for("k8s://test-context/test-namespace/test-pvc/blah");
    assert_eq!(
        newcfg.get_remote_pvc().unwrap_err().message(),
        ConfigError::RemoteTrailingElements.message(),
    );
}

#[test]
fn test_config_extractors_blank_namespace() {
    let newcfg = config_for("k8s://test-context//test-pvc");
    let expected_err = newcfg.get_remote_namespace().expect_err("Expected RemoteNoNamespace error");
    assert_eq!(expected_err.message(), ConfigError::RemoteNoNamespace.message());
}

#[test]
fn test_config_extractors_blank_context() {
    let newcfg = config_for("k8s:///test-namespace/test-pvc");
    let expected_err = newcfg.get_remote_context().expect_err("Expected RemoteNoContext error");
    assert_eq!(expected_err.message(), ConfigError::RemoteNoContext.message());
}

#[test]
fn test_config_extractors_only_scheme() {
    let newcfg = config_for("k8s:");
    let expected_err = newcfg.get_remote_context().expect_err("Expected RemoteInvalid error");
    assert_eq!(expected_err.message(), ConfigError::RemoteInvalid.message());
}

#[test]
fn test_config_extractors_nothing() {
    let newcfg = config_for("");
    let expected_err = newcfg.get_remote_context().expect_err("Expected generic RemoteInvalid error");
    assert_eq!(expected_err.message(), ConfigError::RemoteInvalid.message());
}

#[test]
fn test_config_extractors_single_colon() {
    let newcfg = config_for(":");
    let expected_err = newcfg.get_remote_context().expect_err("Expected generic RemoteInvalid error");
    assert_eq!(expected_err.message(), ConfigError::RemoteInvalid.message());
}

#[test]
fn test_config_extractors_single_name() {
    let newcfg = config_for("ted");
    let expected_err = newcfg.get_remote_context().expect_err("Expected generic RemoteInvalid error");
    assert_eq!(expected_err.message(), ConfigError::RemoteInvalid.message());
}

#[test]
fn test_config_extractors_single_slash() {
    let newcfg = config_for("/");
    let expected_err = newcfg.get_remote_context().expect_err("Expected generic RemoteInvalid error");
    assert_eq!(expected_err.message(), ConfigError::RemoteInvalid.message());
}

#[test]
fn test_config_extractors_crazy_scheme() {
    let newcfg = config_for("crazyscheme://ctx/ns/pvc");
    let expected_err = newcfg.get_remote_context().expect_err("Expected generic RemoteInvalid error");
    assert_eq!(expected_err.message(), ConfigError::RemoteInvalidScheme.message());
}

/// tests to ensure the appropriate error is returned in the face of many errors
/// specifically, if the scheme is invalid, anything else could be happening in
/// the url and it might not be an error _for that kind of URL_
/// so note first when the scheme is wrong because it might be the _only_ error
/// that's truly present.
#[test]
fn test_config_extractors_crazy_scheme_and_other_problems() {
    let newcfg = config_for("crazyscheme:///ns");
    let expected_err = newcfg.get_remote_context().expect_err("Expected generic RemoteInvalid error");
    let eestr = expected_err.message();
    assert_eq!(eestr, ConfigError::RemoteInvalidScheme.message());
}
