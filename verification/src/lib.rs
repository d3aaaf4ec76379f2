//! A Git remote helper that keeps a repository on a Kubernetes persistent
//! volume claim: the verified logic of URL parsing, the remote-helper
//! protocol, the worker pod and the exit status.
pub mod text;
pub mod remote;
pub mod config;
pub mod url_laws;
pub mod protocol;
pub mod exit_status;
pub mod pod;
