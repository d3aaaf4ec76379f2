# git-remote-k8s

A Git remote helper that keeps the repository on a Kubernetes persistent
volume claim. The remote URL is `k8s://kubectl-context/namespace/pvc`.

- `src/` is the verified library:
  - `remote.rs`: the grammar of the remote URL and its matcher;
  - `config.rs`: validation of the URL into context, namespace and claim;
  - `url_laws.rs`: laws of URL validation;
  - `protocol.rs`: lines read from git, their words, and the answer to
    each remote-helper command;
  - `pod.rs`: the worker pod, its selectors, and the git command it runs;
  - `exit_status.rs`: the helper's exit code and log level;
  - `text.rs`: character classes and string conversions.
- `app/main.rs` is the program: arguments, the cluster, standard I/O.
- `tests/` exercises the library, also against the `regex` crate and std.
