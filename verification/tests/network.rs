use gitclient_worker::git::{Git, StepOutput};
use gitclient_worker::job::{run_task, task_error, TaskProgress};
use gitclient_worker::network::{Network, Outcome, Poll, Spawned, TaskEvent};

fn git() -> Git {
    Git::new("git".to_owned(), "/some/repo".to_owned())
}

/// Run a job to its end with a git whose steps give these outputs, as the
/// thread of the job would.
fn thread(input: &[u8], outputs: Vec<StepOutput>) -> Poll {
    let mut given: Vec<StepOutput> = Vec::new();
    let mut outputs = outputs.into_iter();
    loop {
        match run_task(input, &given) {
            Ok(TaskProgress::Run(_, _)) => given.push(outputs.next().expect("one output a step")),
            Ok(TaskProgress::Done(output)) => return Poll::Ended(task_error(Ok(output))),
            Err(message) => return Poll::Ended(task_error(Err(message))),
        }
    }
}

fn ok() -> StepOutput {
    StepOutput { ok: true, stderr: String::new() }
}

#[test]
fn a_job_reports_success() {
    let mut n = Network::new();
    let input = n.start(Poll::Pending, &git(), &[vec!["--version".to_owned()]]).unwrap();
    assert!(n.spawned("check".into(), Spawned::Thread));
    let outcome = n.take_outcome(thread(&input, vec![ok()])).unwrap();
    assert_eq!(outcome.error, None, "git --version should succeed");
    assert_eq!(outcome.label, "check");
    assert!(!n.busy(Poll::Pending), "the flag is cleared when the job ends");
}

#[test]
fn a_failing_step_stops_the_ones_after_it() {
    // "commit and sync" is a pull then a push. If the pull fails the push must
    // not run, or a conflict would be pushed straight past.
    let mut n = Network::new();
    let input = n
        .start(
            Poll::Pending,
            &git(),
            &[
                vec![
                    "rev-parse".to_owned(),
                    "--verify".to_owned(),
                    "refs/heads/definitely-not-a-branch".to_owned(),
                ],
                vec!["--version".to_owned()],
            ],
        )
        .unwrap();
    n.spawned("sync".into(), Spawned::Thread);
    // Only one step has an output to give.
    let failed = StepOutput { ok: false, stderr: "fatal: Needed a single revision\n".to_owned() };
    let outcome = n.take_outcome(thread(&input, vec![failed])).unwrap();
    assert!(outcome.error.is_some(), "the first step failed");
    assert!(
        outcome.error.unwrap().starts_with("git rev-parse:"),
        "the message should name the step that failed"
    );
}

#[test]
fn only_one_job_runs_at_a_time() {
    // Two writes at once contend on index.lock and fail with advice the user
    // cannot act on, so the second is refused instead.
    let mut n = Network::new();
    let input = n.start(Poll::Pending, &git(), &[vec!["--version".into()]]).unwrap();
    assert!(n.spawned("first".into(), Spawned::Thread));
    assert!(n.busy(Poll::Pending));
    assert!(
        n.start(Poll::Pending, &git(), &[vec!["--version".into()]]).is_none(),
        "a second job must be refused while one is in flight"
    );
    assert!(!n.spawned("second".into(), Spawned::Thread));
    assert!(!n.spawned("second".into(), Spawned::Task(1)));
    assert_eq!(n.running(Poll::Pending), Some("first".to_owned()));
    // The end of the first makes room, also when it is seen only now.
    assert!(n
        .start(thread(&input, vec![ok()]), &git(), &[vec!["--version".into()]])
        .is_some());
}

#[test]
fn the_running_label_is_readable_while_a_job_is_in_flight_and_gone_after() {
    let mut n = Network::new();
    let input = n.start(Poll::Pending, &git(), &[vec!["--version".into()]]).unwrap();
    n.spawned("fetching".into(), Spawned::Thread);
    assert_eq!(n.running(Poll::Pending), Some("fetching".to_owned()));
    n.take_outcome(thread(&input, vec![ok()]));
    assert_eq!(n.running(Poll::Pending), None);
}

#[test]
fn an_outcome_is_taken_once() {
    let mut n = Network::new();
    let input = n.start(Poll::Pending, &git(), &[vec!["--version".into()]]).unwrap();
    n.spawned("one".into(), Spawned::Thread);
    assert!(n.take_outcome(thread(&input, vec![ok()])).is_some());
    assert_eq!(n.take_outcome(Poll::Pending), None, "the outcome was already drained");
}

#[test]
fn the_input_of_a_job_is_its_encoding() {
    let steps = vec![vec!["fetch".to_owned()]];
    let mut n = Network::new();
    assert_eq!(
        n.start(Poll::Pending, &git(), &steps),
        Some(gitclient_worker::job::encode_job(&git(), &steps))
    );
}

#[test]
fn a_thread_that_is_gone_fails_its_job() {
    let mut n = Network::new();
    n.spawned("pull".into(), Spawned::Thread);
    assert!(!n.busy(Poll::Stopped), "the flag cannot stay set");
    assert_eq!(
        n.take_outcome(Poll::Pending),
        Some(Outcome {
            label: "pull".to_owned(),
            error: Some("git: the job stopped".to_owned())
        })
    );
}

#[test]
fn a_job_that_nothing_runs_is_not_running() {
    let mut n = Network::default();
    assert!(!n.spawned("pull".into(), Spawned::Failed));
    assert!(!n.busy(Poll::Pending));
    assert_eq!(n.take_outcome(Poll::Ended(None)), None);
}

#[test]
fn the_end_of_the_host_task_ends_the_job() {
    let mut n = Network::new();
    assert!(n.spawned("push".into(), Spawned::Task(7)));
    n.on_task_event(8, TaskEvent::Done(Ok(vec![])));
    n.on_task_event(7, TaskEvent::Progress(vec![1]));
    assert_eq!(n.running(Poll::Pending), Some("push".to_owned()));
    n.on_task_event(7, TaskEvent::Done(Ok(b"git push: rejected".to_vec())));
    assert_eq!(
        n.take_outcome(Poll::Pending),
        Some(Outcome {
            label: "push".to_owned(),
            error: Some("git push: rejected".to_owned())
        })
    );
    // The task is forgotten with its job.
    n.on_task_event(7, TaskEvent::Done(Ok(vec![])));
    assert_eq!(n.take_outcome(Poll::Pending), None);
}

#[test]
fn a_host_task_that_stops_says_why() {
    let mut n = Network::new();
    n.spawned("pull".into(), Spawned::Task(0));
    n.on_task_event(0, TaskEvent::Done(Err("cancelled".to_owned())));
    assert_eq!(
        n.take_outcome(Poll::Pending).unwrap().error,
        Some("git: cancelled".to_owned())
    );
    assert!(!n.busy(Poll::Pending));
}

#[test]
fn a_thread_has_no_task_to_hear_from() {
    let mut n = Network::new();
    n.spawned("pull".into(), Spawned::Thread);
    n.on_task_event(0, TaskEvent::Done(Ok(vec![])));
    assert!(n.busy(Poll::Pending));
}
