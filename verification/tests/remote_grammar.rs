use git_remote_k8s::remote::remote_scheme;
use git_remote_k8s::config::Config;
use git_remote_k8s::config::ConfigError;
use git_remote_k8s::remote::match_remote;
use regex::Regex;

const PATTERN: &str = r"^(?P<scheme_prefix>(?P<scheme>[a-zA-Z][a-zA-Z0-9+.-]*):)?(?:/*)(?P<context>[0-9a-zA-Z](?:[0-9a-zA-Z.-]*[0-9a-zA-Z])?)?/(?P<namespace>[0-9a-zA-Z](?:[0-9a-zA-Z.-]*[0-9a-zA-Z])?)?/(?P<pvc>[0-9a-zA-Z](?:[0-9a-zA-Z.-]*[0-9a-zA-Z])?)?(?P<trailing>/)?";

type Groups = (Option<String>, Option<String>, Option<String>, Option<String>, bool);

fn by_regex(re: &Regex, url: &str) -> Option<Groups> {
    re.captures(url).map(|c| {
        let get = |name: &str| c.name(name).map(|m| m.as_str().to_string());
        (get("scheme"), get("context"), get("namespace"), get("pvc"), c.name("trailing").is_some())
    })
}

fn by_library(url: &str) -> Option<Groups> {
    match_remote(url).map(|p| (p.scheme, p.context, p.namespace, p.pvc, p.trailing))
}

fn validate(url: &str) -> Result<(String, String, String), ConfigError> {
    Config {
        image: "alpine/git:latest".to_string(),
        remote_name: "origin".to_string(),
        remote_url: url.to_string(),
        verbose: 0,
    }
    .parse_and_validate()
}

#[test]
fn grammar_agrees_with_the_pattern_on_all_short_urls() {
    let re = Regex::new(PATTERN).unwrap();
    let alphabet = ['k', '8', 's', ':', '/', 'a', '-', '.', '+'];
    let mut urls: Vec<String> = vec![String::new()];
    let mut frontier: Vec<String> = vec![String::new()];
    for _ in 0..6 {
        let mut next = Vec::new();
        for u in &frontier {
            for c in alphabet {
                let mut v = u.clone();
                v.push(c);
                next.push(v);
            }
        }
        urls.extend(next.iter().cloned());
        frontier = next;
    }
    for url in &urls {
        assert_eq!(by_library(url), by_regex(&re, url), "url {:?}", url);
    }
}

#[test]
fn grammar_agrees_with_the_pattern_on_chosen_urls() {
    let re = Regex::new(PATTERN).unwrap();
    let urls = [
        "k8s://test-context/test-namespace/test-pvc",
        "k8s:test-context/test-namespace/test-pvc",
        "test-context/test-namespace/test-pvc",
        "/test-context/test-namespace/test-pvc",
        "k8s://test-context/test-namespace/test-pvc/",
        "k8s://test-context/test-namespace/test-pvc/blah",
        "k8s://test-context//test-pvc",
        "k8s:///test-namespace/test-pvc",
        "k8s:",
        "",
        ":",
        "ted",
        "/",
        "crazyscheme://ctx/ns/pvc",
        "crazyscheme:///ns",
        "K8S://a/b/c",
        "k8s:////a/b/c",
        "k8s://a.-b/c-.d/e..f",
        "k8s://a/b/c.",
        "k8s://a/b/-c",
        "a+b:c/d/e",
        "k8s://ctx/ns/pvc:extra",
        "k8s://ümlaut/ns/pvc",
        "k8s://ctx/ns/pvç",
        "//",
        "///",
        "k8s://ctx/ns",
        "k8s:/ctx/ns/pvc",
        "ctx/ns/pvc/",
        "1abc:a/b/c",
        "k8s://a b/c/d",
    ];
    for url in urls {
        assert_eq!(by_library(url), by_regex(&re, url), "url {:?}", url);
    }
}

#[test]
fn url_format_round_trips_with_any_number_of_slashes() {
    for prefix in ["k8s:", ""] {
        for k in 0..5 {
            let url = format!("{}{}my.ctx-1/ns-2/claim.3", prefix, "/".repeat(k));
            assert_eq!(
                validate(&url),
                Ok(("my.ctx-1".to_string(), "ns-2".to_string(), "claim.3".to_string())),
                "url {:?}",
                url
            );
        }
    }
}

#[test]
fn anything_after_the_claim_is_trailing() {
    for tail in ["", "x", "/", "a/b/c", ":", "?q"] {
        let url = format!("k8s://ctx/ns/pvc/{}", tail);
        assert_eq!(validate(&url), Err(ConfigError::RemoteTrailingElements), "url {:?}", url);
    }
}

#[test]
fn foreign_scheme_is_reported_first() {
    assert_eq!(validate("git://ctx/ns/pvc"), Err(ConfigError::RemoteInvalidScheme));
    assert_eq!(validate("https:///ns"), Err(ConfigError::RemoteInvalidScheme));
    assert_eq!(validate("K8S://ctx/ns/pvc"), Err(ConfigError::RemoteInvalidScheme));
    assert_eq!(validate("git:"), Err(ConfigError::RemoteInvalidScheme));
    assert_eq!(validate("crazyscheme:ted"), Err(ConfigError::RemoteInvalidScheme));
    assert_eq!(validate("a+b.c-d:://::"), Err(ConfigError::RemoteInvalidScheme));
    assert_eq!(validate("k8s:ted"), Err(ConfigError::RemoteInvalid));
}

#[test]
fn missing_parts_are_named() {
    assert_eq!(validate("k8s://ctx/ns"), Err(ConfigError::RemoteNoContext));
    assert_eq!(validate("k8s://ctx/ns/"), Err(ConfigError::RemoteNoPVC));
    assert_eq!(validate("k8s:///"), Err(ConfigError::RemoteNoContext));
    assert_eq!(validate("ctx//pvc"), Err(ConfigError::RemoteNoNamespace));
    assert_eq!(validate("ctx/ns/pvc."), Ok(("ctx".to_string(), "ns".to_string(), "pvc".to_string())));
}

#[test]
fn error_messages() {
    assert_eq!(ConfigError::RemoteNoNamespace.message(), "no namespace present in remote URL");
    assert_eq!(ConfigError::RemoteTrailingElements.message(), "trailing elements after pvc in remote URL");
    assert_eq!(ConfigError::RemoteNoContext.message(), "no context present in remote URL");
    assert_eq!(ConfigError::RemoteNoPVC.message(), "no PVC name present in remote URL");
    assert_eq!(ConfigError::RemoteInvalid.message(), "invalid remote URL");
    assert_eq!(ConfigError::RemoteInvalidScheme.message(), "remote URL has an invalid (or no) scheme");
}

#[test]
fn scheme_of_a_url() {
    assert_eq!(remote_scheme("crazyscheme:ted"), Some("crazyscheme".to_string()));
    assert_eq!(remote_scheme("k8s://a/b/c"), Some("k8s".to_string()));
    assert_eq!(remote_scheme("a+b.c-d:"), Some("a+b.c-d".to_string()));
    assert_eq!(remote_scheme("ted"), None);
    assert_eq!(remote_scheme("1a:b"), None);
    assert_eq!(remote_scheme(":"), None);
    assert_eq!(remote_scheme("a/b:c"), None);
}
