//! The worker pod: its name, labels and spec, the selectors that find it,
//! what to do with the pods that a listing finds, when it is running, and
//! the git command it runs.
use vstd::prelude::*;

verus! {

/// What goes wrong with the cluster or the worker pod.
#[derive(Debug, Clone, Copy, PartialEq, Eq, Structural)]
pub enum ApplicationError {
    /// cluster state problems
    RemoteClusterInconsistent,
    /// pod state problems
    PodNoName,
    PodNoNamespace,
    PodCouldNotOpenStdin,
    PodCouldNotOpenStdout,
    PodCouldNotOpenStderr,
}

impl ApplicationError {
    /// The message that describes this error.
    pub fn message(&self) -> (s: String)
        ensures
            s@ == match *self {
                ApplicationError::RemoteClusterInconsistent => "cluster is in an inconsistent state"@,
                ApplicationError::PodNoName => "pod metadata doesn't contain a name"@,
                ApplicationError::PodNoNamespace => "pod metadata doesn't contain a namespace"@,
                ApplicationError::PodCouldNotOpenStdin => "couldn't open pod's stdin"@,
                ApplicationError::PodCouldNotOpenStdout => "couldn't open pod's stdout"@,
                ApplicationError::PodCouldNotOpenStderr => "couldn't open pod's stderr"@,
            },
    {
        match self {
            ApplicationError::RemoteClusterInconsistent => "cluster is in an inconsistent state".to_owned(),
            ApplicationError::PodNoName => "pod metadata doesn't contain a name".to_owned(),
            ApplicationError::PodNoNamespace => "pod metadata doesn't contain a namespace".to_owned(),
            ApplicationError::PodCouldNotOpenStdin => "couldn't open pod's stdin".to_owned(),
            ApplicationError::PodCouldNotOpenStdout => "couldn't open pod's stdout".to_owned(),
            ApplicationError::PodCouldNotOpenStderr => "couldn't open pod's stderr".to_owned(),
        }
    }
}

// ---------------------------------------------------------------------------
// Names and labels
// ---------------------------------------------------------------------------

/// The label that names the repository (the claim) a worker pod serves.
pub open spec fn repo_name_label() -> Seq<char> {
    "com.kn8v.git-remote-k8s/repo-name"@
}

/// The label that marks a pod as a worker job.
pub open spec fn job_label() -> Seq<char> {
    "com.kn8v.git-remote-k8s/job"@
}

/// The value of the job label, also the name of the worker's container.
pub open spec fn sleeper() -> Seq<char> {
    "sleeper"@
}

/// The name of the worker pod for a claim.
pub open spec fn worker_pod_name_spec(pvc: Seq<char>) -> Seq<char> {
    "git-remote-worker-"@ + pvc
}

/// The labels of the worker pod for a claim.
pub open spec fn worker_pod_labels_spec(pvc: Seq<char>) -> Seq<(Seq<char>, Seq<char>)> {
    seq![(repo_name_label(), pvc), (job_label(), sleeper())]
}

/// The selector `key=value`.
pub open spec fn selector_spec(key: Seq<char>, value: Seq<char>) -> Seq<char> {
    key + "="@ + value
}

/// The worker pod's name is `git-remote-worker-` followed by the claim
/// name unchanged, so different claims get different worker pods.
pub proof fn law_worker_pod_name(pvc: Seq<char>, other: Seq<char>)
    ensures
        worker_pod_name_spec(pvc).len() == 18 + pvc.len(),
        worker_pod_name_spec(pvc).take(18) == "git-remote-worker-"@,
        worker_pod_name_spec(pvc).skip(18) == pvc,
        worker_pod_name_spec(pvc) == worker_pod_name_spec(other) ==> pvc == other,
{
    reveal_strlit("git-remote-worker-");
    assert(worker_pod_name_spec(pvc).take(18) =~= "git-remote-worker-"@);
    assert(worker_pod_name_spec(pvc).skip(18) =~= pvc);
    assert(worker_pod_name_spec(other).skip(18) =~= other);
}

/// The name of the worker pod for the claim `pvc`.
pub fn worker_pod_name(pvc: &str) -> (name: String)
    ensures
        name@ == worker_pod_name_spec(pvc@),
{
    "git-remote-worker-".to_owned().concat(pvc)
}

/// The worker pod carries the claim name unchanged under the repository
/// label, and the job label `sleeper`; different claims give different
/// labels.
pub proof fn law_worker_pod_labels(pvc: Seq<char>, other: Seq<char>)
    ensures
        worker_pod_labels_spec(pvc).len() == 2,
        worker_pod_labels_spec(pvc)[0] == ("com.kn8v.git-remote-k8s/repo-name"@, pvc),
        worker_pod_labels_spec(pvc)[1] == ("com.kn8v.git-remote-k8s/job"@, "sleeper"@),
        worker_pod_labels_spec(pvc) == worker_pod_labels_spec(other) ==> pvc == other,
{
    if worker_pod_labels_spec(pvc) == worker_pod_labels_spec(other) {
        assert(worker_pod_labels_spec(pvc)[0] == worker_pod_labels_spec(other)[0]);
    }
}

/// The labels of the worker pod for the claim `pvc`.
pub fn worker_pod_labels(pvc: &str) -> (labels: Vec<(String, String)>)
    ensures
        labels.deep_view() == worker_pod_labels_spec(pvc@),
{
    let labels = vec![
        ("com.kn8v.git-remote-k8s/repo-name".to_owned(), pvc.to_owned()),
        ("com.kn8v.git-remote-k8s/job".to_owned(), "sleeper".to_owned()),
    ];
    proof {
        assert(labels.deep_view() =~= worker_pod_labels_spec(pvc@));
    }
    labels
}

/// The selector `key=value`.
pub fn selector(key: &str, value: &str) -> (s: String)
    ensures
        s@ == selector_spec(key@, value@),
{
    key.to_owned().concat("=").concat(value)
}

/// The selectors `key=value` of the given labels, in order; the worker
/// pods are listed by them.
pub fn label_selectors(labels: &Vec<(String, String)>) -> (selectors: Vec<String>)
    ensures
        selectors@.len() == labels@.len(),
        forall|i: int|
            0 <= i < labels@.len() ==> #[trigger] selectors@[i]@ == selector_spec(
                labels@[i].0@,
                labels@[i].1@,
            ),
{
    let mut selectors: Vec<String> = Vec::new();
    let mut i: usize = 0;
    while i < labels.len()
        invariant
            0 <= i <= labels@.len(),
            selectors@.len() == i,
            forall|k: int|
                0 <= k < i ==> #[trigger] selectors@[k]@ == selector_spec(
                    labels@[k].0@,
                    labels@[k].1@,
                ),
        decreases labels@.len() - i,
    {
        let (key, value) = &labels[i];
        selectors.push(selector(key.as_str(), value.as_str()));
        i += 1;
    }
    selectors
}

// ---------------------------------------------------------------------------
// The worker pod
// ---------------------------------------------------------------------------

/// The shell command that keeps the worker pod alive.
pub open spec fn sleeper_command() -> Seq<char> {
    "set -e; while true;do sleep 5;done"@
}

/// The directory where the claim is mounted in the worker.
pub open spec fn repo_mount_path() -> Seq<char> {
    "/repo"@
}

/// The name of the volume that holds the claim.
pub open spec fn repo_volume() -> Seq<char> {
    "repo"@
}

/// The worker pod: one container that sleeps, with the claim mounted at
/// `/repo`, where git commands are later run.
pub struct WorkerPod {
    pub name: String,
    pub namespace: String,
    pub labels: Vec<(String, String)>,
    pub restart_policy: String,
    pub container_name: String,
    pub command: Vec<String>,
    pub image: String,
    pub working_dir: String,
    pub volume_mount_name: String,
    pub volume_mount_path: String,
    pub volume_name: String,
    pub claim_name: String,
}

/// The worker pod for the claim `pvc` in `namespace`, with the image `image`.
pub fn worker_pod(pvc: &str, namespace: &str, image: &str) -> (pod: WorkerPod)
    ensures
        pod.name@ == worker_pod_name_spec(pvc@),
        pod.namespace@ == namespace@,
        pod.labels.deep_view() == worker_pod_labels_spec(pvc@),
        pod.restart_policy@ == "Never"@,
        pod.container_name@ == sleeper(),
        pod.command.deep_view() == seq!["/bin/sh"@, "-c"@, sleeper_command()],
        pod.image@ == image@,
        pod.working_dir@ == repo_mount_path(),
        pod.volume_mount_name@ == repo_volume(),
        pod.volume_mount_path@ == repo_mount_path(),
        pod.volume_name@ == repo_volume(),
        pod.claim_name@ == pvc@,
{
    let command = vec![
        "/bin/sh".to_owned(),
        "-c".to_owned(),
        "set -e; while true;do sleep 5;done".to_owned(),
    ];
    proof {
        assert(command.deep_view() =~= seq!["/bin/sh"@, "-c"@, sleeper_command()]);
    }
    WorkerPod {
        name: worker_pod_name(pvc),
        namespace: namespace.to_owned(),
        labels: worker_pod_labels(pvc),
        restart_policy: "Never".to_owned(),
        container_name: "sleeper".to_owned(),
        command,
        image: image.to_owned(),
        working_dir: "/repo".to_owned(),
        volume_mount_name: "repo".to_owned(),
        volume_mount_path: "/repo".to_owned(),
        volume_name: "repo".to_owned(),
        claim_name: pvc.to_owned(),
    }
}

/// What to do once the worker pods of a claim are listed.
#[derive(Debug, Clone, Copy, PartialEq, Eq, Structural)]
pub enum WorkerPodPlan {
    /// No worker pod exists: create one.
    Create,
    /// Exactly one exists: use it.
    UseExisting,
}

/// The plan for `existing` worker pods: create one where there is none, use
/// the one there is, and refuse to go on where there are several.
pub fn worker_pod_plan(existing: usize) -> (plan: Result<WorkerPodPlan, ApplicationError>)
    ensures
        plan == if existing == 0 {
            Ok::<WorkerPodPlan, ApplicationError>(WorkerPodPlan::Create)
        } else if existing == 1 {
            Ok::<WorkerPodPlan, ApplicationError>(WorkerPodPlan::UseExisting)
        } else {
            Err::<WorkerPodPlan, ApplicationError>(ApplicationError::RemoteClusterInconsistent)
        },
{
    if existing > 1 {
        Err(ApplicationError::RemoteClusterInconsistent)
    } else if existing == 0 {
        Ok(WorkerPodPlan::Create)
    } else {
        Ok(WorkerPodPlan::UseExisting)
    }
}

// ---------------------------------------------------------------------------
// A pod's metadata
// ---------------------------------------------------------------------------

/// What the helper reads of a pod's metadata.
pub struct PodMeta {
    pub name: Option<String>,
    pub namespace: Option<String>,
    pub labels: Vec<(String, String)>,
}

impl PodMeta {
    /// The label selectors of the pod. The selectors `key=value` are formed
    /// for each label but none is collected, so the result is always empty.
    pub fn label_selectors(&self) -> (selectors: Vec<String>)
        ensures
            selectors@ == Seq::<String>::empty(),
    {
        let selectors: Vec<String> = Vec::new();
        let mut i: usize = 0;
        while i < self.labels.len()
            invariant
                0 <= i <= self.labels@.len(),
            decreases self.labels@.len() - i,
        {
            let (key, value) = &self.labels[i];
            let _ = selector(key.as_str(), value.as_str());
            i += 1;
        }
        selectors
    }

    /// The field selectors `metadata.name=<name>` and
    /// `metadata.namespace=<namespace>` that find this very pod.
    pub fn field_selectors(&self) -> (res: Result<Vec<String>, ApplicationError>)
        ensures
            match res {
                Ok(s) => self.name is Some && self.namespace is Some && s.deep_view() == seq![
                    "metadata.name="@ + self.name->0@,
                    "metadata.namespace="@ + self.namespace->0@,
                ],
                Err(e) => (self.name is None && e == ApplicationError::PodNoName) || (self.name is Some
                    && self.namespace is None && e == ApplicationError::PodNoNamespace),
            },
    {
        let name = match &self.name {
            Some(n) => n,
            None => return Err(ApplicationError::PodNoName),
        };
        let by_name = "metadata.name=".to_owned().concat(name.as_str());
        let namespace = match &self.namespace {
            Some(n) => n,
            None => return Err(ApplicationError::PodNoNamespace),
        };
        let by_namespace = "metadata.namespace=".to_owned().concat(namespace.as_str());
        let selectors = vec![by_name, by_namespace];
        proof {
            assert(selectors.deep_view() =~= seq![
                "metadata.name="@ + self.name->0@,
                "metadata.namespace="@ + self.namespace->0@,
            ]);
        }
        Ok(selectors)
    }
}

// ---------------------------------------------------------------------------
// Pod phase
// ---------------------------------------------------------------------------

/// What is missing from a pod that is asked whether it runs.
#[derive(Debug, Clone, Copy, PartialEq, Eq, Structural)]
pub enum PodStateError {
    NoName,
    NoStatus,
    NoPhase,
}

impl PodStateError {
    /// The message that describes this error.
    pub fn message(&self) -> (s: String)
        ensures
            s@ == match *self {
                PodStateError::NoName => "pod metadata must have a name"@,
                PodStateError::NoStatus => "pod has no status"@,
                PodStateError::NoPhase => "pod has no status.phase"@,
            },
    {
        match self {
            PodStateError::NoName => "pod metadata must have a name".to_owned(),
            PodStateError::NoStatus => "pod has no status".to_owned(),
            PodStateError::NoPhase => "pod has no status.phase".to_owned(),
        }
    }
}

/// The phase of a running pod.
pub open spec fn running_phase() -> Seq<char> {
    "Running"@
}

/// The name under which a pod is looked up.
pub fn pod_lookup_name(meta: &PodMeta) -> (res: Result<String, PodStateError>)
    ensures
        match res {
            Ok(n) => meta.name is Some && n@ == meta.name->0@,
            Err(e) => meta.name is None && e == PodStateError::NoName,
        },
{
    match &meta.name {
        Some(n) => Ok(n.clone()),
        None => Err(PodStateError::NoName),
    }
}

/// Whether a pod runs, by its status: `status` is `None` where the pod has
/// no status, and holds the status's phase otherwise.
pub fn pod_running_from_status(status: Option<Option<&str>>) -> (res: Result<bool, PodStateError>)
    ensures
        match status {
            None => res == Err::<bool, PodStateError>(PodStateError::NoStatus),
            Some(None) => res == Err::<bool, PodStateError>(PodStateError::NoPhase),
            Some(Some(phase)) => res == Ok::<bool, PodStateError>(phase@ == running_phase()),
        },
{
    match status {
        None => Err(PodStateError::NoStatus),
        Some(None) => Err(PodStateError::NoPhase),
        Some(Some(phase)) => Ok(phase.to_owned() == "Running".to_owned()),
    }
}

/// What a look at the worker pod delivers to the one waiting for it to run:
/// that it runs, or the error of the look; nothing where it does not run
/// yet (the watch on the pod then tells).
pub fn running_check_outcome<E>(look: Result<bool, E>) -> (outcome: Option<Result<(), E>>)
    ensures
        match look {
            Ok(true) => outcome == Some(Ok::<(), E>(())),
            Ok(false) => outcome is None,
            Err(e) => outcome == Some(Err::<(), E>(e)),
        },
{
    match look {
        Ok(true) => Some(Ok(())),
        Ok(false) => None,
        Err(e) => Some(Err(e)),
    }
}

/// Whether an event of a watch on the worker pod shows it running: a
/// modification after which the status's phase, or the empty phase where
/// it has none, is `Running`.
pub fn watch_event_shows_running(modified: bool, phase: Option<&str>) -> (running: bool)
    ensures
        running == (modified && phase is Some && phase->0@ == running_phase()),
{
    if !modified {
        return false;
    }
    let phase = match phase {
        Some(p) => p.to_owned(),
        None => String::new(),
    };
    let running = phase == "Running".to_owned();
    proof {
        if running {
            reveal_strlit("Running");
            assert(phase@.len() > 0);
        }
    }
    running
}

// ---------------------------------------------------------------------------
// The git command
// ---------------------------------------------------------------------------

/// What the worker runs before the git service: a greeting, and an empty
/// bare repository where none is yet.
pub open spec fn worker_prelude() -> Seq<char> {
    "1>&2 echo welcome from the git-remote-k8s worker pod ; [ -f HEAD ] || git init --bare 1>&2"@
}

/// The shell command the worker runs for the git service `connect_cmd`:
/// the prelude, then the service on the repository, ending with the
/// service's exit status.
pub open spec fn worker_git_command_spec(connect_cmd: Seq<char>) -> Seq<char> {
    worker_prelude() + ";echo;"@ + connect_cmd + " .;RC=$?;1>&2 echo remote worker exiting;exit $RC"@
}

/// The command holds the service in full: it is the prelude, `;echo;`, the
/// service unaltered, and the ending that exits with the service's status;
/// so different services give different commands.
pub proof fn law_worker_git_command(service: Seq<char>, other: Seq<char>)
    ensures
        ({
            let cmd = worker_git_command_spec(service);
            let start = (worker_prelude().len() + 6) as int;
            let end = " .;RC=$?;1>&2 echo remote worker exiting;exit $RC"@;
            &&& cmd.len() == start + service.len() + end.len()
            &&& cmd.take(start) == worker_prelude() + ";echo;"@
            &&& cmd.subrange(start, start + service.len() as int) == service
            &&& cmd.skip(start + service.len() as int) == end
        }),
        worker_git_command_spec(service) == worker_git_command_spec(other) ==> service == other,
{
    reveal_strlit(";echo;");
    let start = (worker_prelude().len() + 6) as int;
    let end = " .;RC=$?;1>&2 echo remote worker exiting;exit $RC"@;
    let cmd = worker_git_command_spec(service);
    let p = worker_prelude() + ";echo;"@;
    assert(cmd =~= p + service + end);
    assert(cmd.take(start) =~= p);
    assert(cmd.subrange(start, start + service.len() as int) =~= service);
    assert(cmd.skip(start + service.len() as int) =~= end);
    let cmd2 = worker_git_command_spec(other);
    assert(cmd2 =~= p + other + end);
    if cmd == cmd2 {
        assert(cmd2.len() == start + other.len() + end.len());
        assert(cmd2.subrange(start, start + other.len() as int) =~= other);
    }
}

/// The shell command the worker runs for the git service `connect_cmd`.
pub fn worker_git_command(connect_cmd: &str) -> (cmd: String)
    ensures
        cmd@ == worker_git_command_spec(connect_cmd@),
{
    let mut cmd =
        "1>&2 echo welcome from the git-remote-k8s worker pod ; [ -f HEAD ] || git init --bare 1>&2".to_owned();
    cmd.append(";echo;");
    cmd.append(connect_cmd);
    cmd.append(" .;RC=$?;1>&2 echo remote worker exiting;exit $RC");
    cmd
}

/// The command line that runs a shell command in the worker's container.
pub fn worker_exec_command(shell_command: &str) -> (argv: Vec<String>)
    ensures
        argv.deep_view() == seq!["sh"@, "-c"@, shell_command@],
{
    let argv = vec!["sh".to_owned(), "-c".to_owned(), shell_command.to_owned()];
    proof {
        assert(argv.deep_view() =~= seq!["sh"@, "-c"@, shell_command@]);
    }
    argv
}

} // verus!
