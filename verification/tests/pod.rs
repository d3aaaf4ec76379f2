use git_remote_k8s::pod::running_check_outcome;
use git_remote_k8s::pod::label_selectors;
use git_remote_k8s::pod::pod_lookup_name;
use git_remote_k8s::pod::pod_running_from_status;
use git_remote_k8s::pod::selector;
use git_remote_k8s::pod::watch_event_shows_running;
use git_remote_k8s::pod::worker_exec_command;
use git_remote_k8s::pod::worker_git_command;
use git_remote_k8s::pod::worker_pod;
use git_remote_k8s::pod::worker_pod_labels;
use git_remote_k8s::pod::worker_pod_name;
use git_remote_k8s::pod::worker_pod_plan;
use git_remote_k8s::pod::ApplicationError;
use git_remote_k8s::pod::PodMeta;
use git_remote_k8s::pod::PodStateError;
use git_remote_k8s::pod::WorkerPodPlan;

fn pair(a: &str, b: &str) -> (String, String) {
    (a.to_string(), b.to_string())
}

#[test]
fn worker_names_and_labels() {
    assert_eq!(worker_pod_name("test-pvc"), "git-remote-worker-test-pvc");
    assert_eq!(
        worker_pod_labels("test-pvc"),
        vec![
            pair("com.kn8v.git-remote-k8s/repo-name", "test-pvc"),
            pair("com.kn8v.git-remote-k8s/job", "sleeper"),
        ]
    );
}

#[test]
fn selectors_of_labels() {
    assert_eq!(selector("a", "b"), "a=b");
    assert_eq!(
        label_selectors(&worker_pod_labels("repo")),
        vec!["com.kn8v.git-remote-k8s/repo-name=repo", "com.kn8v.git-remote-k8s/job=sleeper"]
    );
    assert!(label_selectors(&Vec::new()).is_empty());
}

#[test]
fn the_worker_pod() {
    let pod = worker_pod("claim", "ns", "alpine/git:latest");
    assert_eq!(pod.name, "git-remote-worker-claim");
    assert_eq!(pod.namespace, "ns");
    assert_eq!(pod.labels, worker_pod_labels("claim"));
    assert_eq!(pod.restart_policy, "Never");
    assert_eq!(pod.container_name, "sleeper");
    assert_eq!(pod.command, vec!["/bin/sh", "-c", "set -e; while true;do sleep 5;done"]);
    assert_eq!(pod.image, "alpine/git:latest");
    assert_eq!(pod.working_dir, "/repo");
    assert_eq!(pod.volume_mount_name, "repo");
    assert_eq!(pod.volume_mount_path, "/repo");
    assert_eq!(pod.volume_name, "repo");
    assert_eq!(pod.claim_name, "claim");
}

#[test]
fn plans_for_listed_worker_pods() {
    assert_eq!(worker_pod_plan(0), Ok(WorkerPodPlan::Create));
    assert_eq!(worker_pod_plan(1), Ok(WorkerPodPlan::UseExisting));
    assert_eq!(worker_pod_plan(2), Err(ApplicationError::RemoteClusterInconsistent));
    assert_eq!(worker_pod_plan(usize::MAX), Err(ApplicationError::RemoteClusterInconsistent));
}

#[test]
fn field_selectors_of_a_pod() {
    let meta = PodMeta { name: Some("p".to_string()), namespace: Some("n".to_string()), labels: vec![] };
    assert_eq!(meta.field_selectors(), Ok(vec!["metadata.name=p".to_string(), "metadata.namespace=n".to_string()]));
    let meta = PodMeta { name: None, namespace: Some("n".to_string()), labels: vec![] };
    assert_eq!(meta.field_selectors(), Err(ApplicationError::PodNoName));
    let meta = PodMeta { name: Some("p".to_string()), namespace: None, labels: vec![] };
    assert_eq!(meta.field_selectors(), Err(ApplicationError::PodNoNamespace));
}

#[test]
fn label_selectors_of_a_pod_are_empty() {
    let meta = PodMeta { name: None, namespace: None, labels: vec![pair("a", "b"), pair("c", "d")] };
    assert!(meta.label_selectors().is_empty());
}

#[test]
fn pod_phase() {
    assert_eq!(pod_running_from_status(None), Err(PodStateError::NoStatus));
    assert_eq!(pod_running_from_status(Some(None)), Err(PodStateError::NoPhase));
    assert_eq!(pod_running_from_status(Some(Some("Running"))), Ok(true));
    assert_eq!(pod_running_from_status(Some(Some("Pending"))), Ok(false));
    let meta = PodMeta { name: None, namespace: None, labels: vec![] };
    assert_eq!(pod_lookup_name(&meta), Err(PodStateError::NoName));
    let meta = PodMeta { name: Some("w".to_string()), namespace: None, labels: vec![] };
    assert_eq!(pod_lookup_name(&meta), Ok("w".to_string()));
}

#[test]
fn watch_events() {
    assert!(watch_event_shows_running(true, Some("Running")));
    assert!(!watch_event_shows_running(true, Some("Pending")));
    assert!(!watch_event_shows_running(true, None));
    assert!(!watch_event_shows_running(false, Some("Running")));
}

#[test]
fn the_git_command() {
    assert_eq!(
        worker_git_command("git-upload-pack"),
        "1>&2 echo welcome from the git-remote-k8s worker pod ; [ -f HEAD ] || git init --bare 1>&2;echo;git-upload-pack .;RC=$?;1>&2 echo remote worker exiting;exit $RC"
    );
    assert_eq!(worker_exec_command("ls"), vec!["sh", "-c", "ls"]);
}

#[test]
fn application_error_messages() {
    assert_eq!(ApplicationError::RemoteClusterInconsistent.message(), "cluster is in an inconsistent state");
    assert_eq!(ApplicationError::PodNoName.message(), "pod metadata doesn't contain a name");
    assert_eq!(ApplicationError::PodNoNamespace.message(), "pod metadata doesn't contain a namespace");
    assert_eq!(ApplicationError::PodCouldNotOpenStdin.message(), "couldn't open pod's stdin");
    assert_eq!(ApplicationError::PodCouldNotOpenStdout.message(), "couldn't open pod's stdout");
    assert_eq!(ApplicationError::PodCouldNotOpenStderr.message(), "couldn't open pod's stderr");
    assert_eq!(PodStateError::NoName.message(), "pod metadata must have a name");
    assert_eq!(PodStateError::NoStatus.message(), "pod has no status");
    assert_eq!(PodStateError::NoPhase.message(), "pod has no status.phase");
}

#[test]
fn outcomes_of_a_look_at_the_pod() {
    assert_eq!(running_check_outcome::<String>(Ok(true)), Some(Ok(())));
    assert_eq!(running_check_outcome::<String>(Ok(false)), None);
    assert_eq!(running_check_outcome::<String>(Err("gone".to_string())), Some(Err("gone".to_string())));
}
