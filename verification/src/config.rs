//! The helper's configuration and the validation of its remote URL into a
//! context, a namespace and a persistent volume claim name.
use vstd::prelude::*;
use crate::remote::k8s_scheme;
use crate::remote::match_remote;
use crate::remote::remote_scheme;
use crate::remote::scheme_split;
use crate::remote::remote_match;
use crate::text::chars_of;

verus! {

/// Why a remote URL was refused.
#[derive(Debug, Clone, Copy, PartialEq, Eq, Structural)]
pub enum ConfigError {
    RemoteNoNamespace,
    RemoteTrailingElements,
    RemoteNoContext,
    RemoteNoPVC,
    RemoteInvalid,
    RemoteInvalidScheme,
}

impl ConfigError {
    /// The message that describes this error.
    pub fn message(&self) -> (s: String)
        ensures
            s@ == match *self {
                ConfigError::RemoteNoNamespace => "no namespace present in remote URL"@,
                ConfigError::RemoteTrailingElements => "trailing elements after pvc in remote URL"@,
                ConfigError::RemoteNoContext => "no context present in remote URL"@,
                ConfigError::RemoteNoPVC => "no PVC name present in remote URL"@,
                ConfigError::RemoteInvalid => "invalid remote URL"@,
                ConfigError::RemoteInvalidScheme => "remote URL has an invalid (or no) scheme"@,
            },
    {
        match self {
            ConfigError::RemoteNoNamespace => "no namespace present in remote URL".to_owned(),
            ConfigError::RemoteTrailingElements => "trailing elements after pvc in remote URL".to_owned(),
            ConfigError::RemoteNoContext => "no context present in remote URL".to_owned(),
            ConfigError::RemoteNoPVC => "no PVC name present in remote URL".to_owned(),
            ConfigError::RemoteInvalid => "invalid remote URL".to_owned(),
            ConfigError::RemoteInvalidScheme => "remote URL has an invalid (or no) scheme".to_owned(),
        }
    }
}

/// The context, namespace and claim name that a remote URL names, or why
/// it is refused. A URL that starts with a scheme other than `k8s` (and a
/// `:`) is refused for its scheme before anything else, whatever follows;
/// then a URL that the pattern does not match is invalid; then a missing
/// context, namespace and claim name are reported, in that order; then
/// anything that follows the claim name.
pub open spec fn validate_remote(url: Seq<char>) -> Result<(Seq<char>, Seq<char>, Seq<char>), ConfigError> {
    let scheme = scheme_split(url).0;
    if scheme is Some && scheme->0 != k8s_scheme() {
        Err(ConfigError::RemoteInvalidScheme)
    } else {
        match remote_match(url) {
            None => Err(ConfigError::RemoteInvalid),
            Some(m) => {
                if m.context is None {
                    Err(ConfigError::RemoteNoContext)
                } else if m.namespace is None {
                    Err(ConfigError::RemoteNoNamespace)
                } else if m.pvc is None {
                    Err(ConfigError::RemoteNoPVC)
                } else if m.trailing {
                    Err(ConfigError::RemoteTrailingElements)
                } else {
                    Ok((m.context->0, m.namespace->0, m.pvc->0))
                }
            },
        }
    }
}

/// The configuration of the helper: what git passes it, and its options.
pub struct Config {
    /// Docker image used for the git worker pod.
    pub image: String,
    /// The name of the remote.
    pub remote_name: String,
    /// The URL of the remote.
    pub remote_url: String,
    /// Verbosity: how often the verbose flag was given.
    pub verbose: u8,
}

/// Whether `s` is the scheme `k8s`.
fn is_k8s_scheme(s: &String) -> (b: bool)
    ensures
        b == (s@ == k8s_scheme()),
{
    let v = chars_of(s.as_str());
    let b = v.len() == 3 && v[0] == 'k' && v[1] == '8' && v[2] == 's';
    proof {
        if b {
            assert(v@ =~= k8s_scheme());
        } else if s@ == k8s_scheme() {
            assert(v@[0] == 'k' && v@[1] == '8' && v@[2] == 's');
        }
    }
    b
}

impl Config {
    /// Parses and validates the remote URL into (context, namespace, pvc).
    pub fn parse_and_validate(&self) -> (res: Result<(String, String, String), ConfigError>)
        ensures
            match res {
                Ok((c, n, p)) => validate_remote(self.remote_url@) == Ok::<
                    (Seq<char>, Seq<char>, Seq<char>),
                    ConfigError,
                >((c@, n@, p@)),
                Err(e) => validate_remote(self.remote_url@) == Err::<
                    (Seq<char>, Seq<char>, Seq<char>),
                    ConfigError,
                >(e),
            },
    {
        if let Some(s) = remote_scheme(self.remote_url.as_str()) {
            if !is_k8s_scheme(&s) {
                return Err(ConfigError::RemoteInvalidScheme);
            }
        }
        let parts = match match_remote(self.remote_url.as_str()) {
            Some(p) => p,
            None => return Err(ConfigError::RemoteInvalid),
        };
        let context = parts.context;
        let namespace = parts.namespace;
        let pvc = parts.pvc;
        let trailing = parts.trailing;
        let context = match context {
            Some(c) => c,
            None => return Err(ConfigError::RemoteNoContext),
        };
        let namespace = match namespace {
            Some(n) => n,
            None => return Err(ConfigError::RemoteNoNamespace),
        };
        let pvc = match pvc {
            Some(p) => p,
            None => return Err(ConfigError::RemoteNoPVC),
        };
        if trailing {
            return Err(ConfigError::RemoteTrailingElements);
        }
        Ok((context, namespace, pvc))
    }

    /// The kubectl context that the remote URL names.
    pub fn get_remote_context(&self) -> (res: Result<String, ConfigError>)
        ensures
            match res {
                Ok(c) => validate_remote(self.remote_url@) is Ok && c@ == validate_remote(
                    self.remote_url@,
                )->Ok_0.0,
                Err(e) => validate_remote(self.remote_url@) == Err::<
                    (Seq<char>, Seq<char>, Seq<char>),
                    ConfigError,
                >(e),
            },
    {
        let (r, _, _) = self.parse_and_validate()?;
        Ok(r)
    }

    /// The namespace that the remote URL names.
    pub fn get_remote_namespace(&self) -> (res: Result<String, ConfigError>)
        ensures
            match res {
                Ok(n) => validate_remote(self.remote_url@) is Ok && n@ == validate_remote(
                    self.remote_url@,
                )->Ok_0.1,
                Err(e) => validate_remote(self.remote_url@) == Err::<
                    (Seq<char>, Seq<char>, Seq<char>),
                    ConfigError,
                >(e),
            },
    {
        let (_, r, _) = self.parse_and_validate()?;
        Ok(r)
    }

    /// The persistent volume claim that the remote URL names.
    pub fn get_remote_pvc(&self) -> (res: Result<String, ConfigError>)
        ensures
            match res {
                Ok(p) => validate_remote(self.remote_url@) is Ok && p@ == validate_remote(
                    self.remote_url@,
                )->Ok_0.2,
                Err(e) => validate_remote(self.remote_url@) == Err::<
                    (Seq<char>, Seq<char>, Seq<char>),
                    ConfigError,
                >(e),
            },
    {
        let (_, _, r) = self.parse_and_validate()?;
        Ok(r)
    }
}

} // verus!
