use gitclient_worker::ffon::{read_elements, write_elements, Child, Element, Found};
use gitclient_worker::git::{Git, StepOutput};
use gitclient_worker::job::{
    decode_job, decode_result, encode_job, encode_result, job_from_elements, run_job, run_task,
    task_error, TaskProgress, TASK,
};
use gitclient_worker::steps::{run_steps, Progress};
use gitclient_worker::text::{first_line, is_white_space};
use std::path::Path;

fn git() -> Git {
    Git::new("git".to_owned(), "/some/repo".to_owned())
}

fn words(args: &[&str]) -> Vec<String> {
    args.iter().map(|a| (*a).to_owned()).collect()
}

fn ok() -> StepOutput {
    StepOutput { ok: true, stderr: String::new() }
}

fn fails(stderr: &str) -> StepOutput {
    StepOutput { ok: false, stderr: stderr.to_owned() }
}

#[test]
fn a_job_travels_to_the_task_and_back() {
    // The worker instance shares nothing with the UI one, so the job has to
    // survive the trip as bytes: a commit message with a newline in it, say.
    let git = Git::new("git".to_owned(), "/some/repo".to_owned());
    let steps = vec![
        vec!["pull".to_owned(), "--ff-only".to_owned()],
        vec!["commit".to_owned(), "-m".to_owned(), "two\nlines".to_owned()],
    ];
    let (back, back_steps) = decode_job(&encode_job(&git, &steps)).unwrap();
    assert_eq!(Path::new(back.cwd()), Path::new("/some/repo"));
    assert_eq!(back.binary(), "git");
    assert_eq!(back_steps, steps);

    assert_eq!(decode_result(&encode_result(None)), None);
    assert_eq!(
        decode_result(&encode_result(Some("git push: rejected".into()))),
        Some("git push: rejected".to_owned())
    );
}

#[test]
fn the_task_runs_the_job() {
    let input = encode_job(&git(), &[vec!["--version".to_owned()]]);
    assert_eq!(
        run_task(&input, &[]),
        Ok(TaskProgress::Run(git(), words(&["--version"])))
    );
    let done = match run_task(&input, &[ok()]).unwrap() {
        TaskProgress::Done(output) => output,
        other => panic!("the job has ended: {other:?}"),
    };
    assert_eq!(decode_result(&done), None);

    let input = encode_job(
        &git(),
        &[vec!["rev-parse".to_owned(), "--verify".to_owned(), "nope".to_owned()]],
    );
    let bad = match run_task(&input, &[fails("fatal: Needed a single revision\n")]).unwrap() {
        TaskProgress::Done(output) => output,
        other => panic!("the job has ended: {other:?}"),
    };
    assert!(decode_result(&bad).unwrap().starts_with("git rev-parse:"));
    assert!(run_task(b"not a job", &[]).is_err());
}

#[test]
fn a_malformed_job_is_named_so() {
    let message = Err("gitclient: a malformed job".to_owned());
    assert_eq!(run_task(b"", &[]), message);
    assert_eq!(run_task(b"not a job", &[]), message);
    // One string is not enough.
    assert_eq!(run_task(&write_elements(&[Element::Str("/some/repo".to_owned())]), &[]), message);
}

#[test]
fn elements_have_the_binary_form_of_the_format() {
    let elements = vec![
        Element::Str("/r".to_owned()),
        Element::Obj("step".to_owned(), words(&["add", "k:"])),
    ];
    let mut expected: Vec<u8> = Vec::new();
    expected.extend_from_slice(&[0, 0, 0, 0, 2, 0, 0, 0, b'/', b'r']);
    expected.extend_from_slice(&[0, 0, 0, 0, 5, 0, 0, 0, b's', b't', b'e', b'p', b':']);
    expected.extend_from_slice(&[1, 0, 0, 0, 3, 0, 0, 0, b'a', b'd', b'd']);
    expected.extend_from_slice(&[1, 0, 0, 0, 2, 0, 0, 0, b'k', b':']);
    assert_eq!(write_elements(&elements), expected);
    // Nothing tells the text that ends in a colon from an empty object.
    assert_eq!(
        read_elements(&expected),
        Some(vec![
            Found::Str("/r".to_owned()),
            Found::Obj(
                "step".to_owned(),
                vec![Child::Str("add".to_owned()), Child::Obj("k".to_owned(), 0)],
            ),
        ])
    );
}

#[test]
fn elements_are_found_in_their_binary_form() {
    let bytes = write_elements(&[
        Element::Str("caf\u{e9} \u{1f600}".to_owned()),
        Element::Str(String::new()),
        Element::Str("top:".to_owned()),
        Element::Obj(String::new(), vec![]),
        Element::Obj("key:".to_owned(), words(&["inner:", ": leading", "::"])),
        Element::Str("after".to_owned()),
    ]);
    assert_eq!(
        read_elements(&bytes),
        Some(vec![
            Found::Str("caf\u{e9} \u{1f600}".to_owned()),
            Found::Str(String::new()),
            Found::Obj("top".to_owned(), vec![]),
            Found::Obj(String::new(), vec![]),
            Found::Obj(
                "key:".to_owned(),
                vec![
                    Child::Obj("inner".to_owned(), 0),
                    Child::Str(": leading".to_owned()),
                    Child::Obj(":".to_owned(), 0),
                ],
            ),
            Found::Str("after".to_owned()),
        ])
    );
}

#[test]
fn bytes_without_a_whole_record_hold_no_elements() {
    assert_eq!(read_elements(b""), Some(vec![]));
    assert_eq!(read_elements(b"seven b"), Some(vec![]));
    assert_eq!(read_elements(&[0, 0, 0, 0, 1, 0, 0, 0]), Some(vec![]));
    assert_eq!(read_elements(&[0, 0, 0, 0, 255, 255, 255, 255]), Some(vec![]));
}

#[test]
fn an_object_that_holds_elements_is_no_argument() {
    let mut bytes = write_elements(&[
        Element::Str("/r".to_owned()),
        Element::Str("git".to_owned()),
        Element::Obj("step".to_owned(), words(&["inner:"])),
    ]);
    bytes.extend_from_slice(&[2, 0, 0, 0, 4, 0, 0, 0, b'd', b'e', b'e', b'p']);
    bytes.extend_from_slice(&[1, 0, 0, 0, 5, 0, 0, 0, b'f', b'e', b't', b'c', b'h']);
    let (_, steps) = decode_job(&bytes).unwrap();
    assert_eq!(steps, vec![words(&["fetch"])]);
}

#[test]
fn texts_that_end_in_a_colon_survive_the_trip() {
    let odd = Git::new("git:".to_owned(), "/odd:".to_owned());
    let steps = vec![
        words(&["push", "origin:", "main"]),
        words(&["commit", "-m", "Notes:"]),
        words(&[":", "::", "a:b", ":a"]),
        vec![],
        words(&["log", ""]),
    ];
    let (back, back_steps) = decode_job(&encode_job(&odd, &steps)).unwrap();
    assert_eq!((back.cwd(), back.binary()), ("/odd:", "git:"));
    assert_eq!(back_steps, steps);
    // The task runs what was sent, too.
    let input = encode_job(&odd, &steps);
    assert_eq!(
        run_task(&input, &[ok()]),
        Ok(TaskProgress::Run(odd, words(&["commit", "-m", "Notes:"])))
    );
}

#[test]
fn a_job_is_read_from_elements() {
    let string = |s: &str| Found::Str(s.to_owned());
    let full = || Found::Obj("a".to_owned(), vec![Child::Str("b".to_owned())]);
    assert_eq!(job_from_elements(&[]), None);
    assert_eq!(job_from_elements(&[string("/r")]), None);
    assert_eq!(job_from_elements(&[full(), string("git")]), None);
    assert_eq!(job_from_elements(&[string("/r"), full()]), None);
    let (git, steps) = job_from_elements(&[
        string("/r"),
        Found::Obj("git".to_owned(), vec![]),
        string("not a step"),
        Found::Obj(
            "any key".to_owned(),
            vec![
                Child::Str("a".to_owned()),
                Child::Obj("b".to_owned(), 0),
                Child::Obj("full".to_owned(), 2),
                Child::Str("c".to_owned()),
            ],
        ),
    ])
    .unwrap();
    assert_eq!((git.cwd(), git.binary()), ("/r", "git:"));
    assert_eq!(steps, vec![vec![], words(&["a", "b:", "c"])]);
}

#[test]
fn an_empty_message_reads_back_as_success() {
    assert_eq!(encode_result(Some(String::new())), Vec::<u8>::new());
    assert_eq!(decode_result(&encode_result(Some(String::new()))), None);
}

#[test]
fn a_result_that_is_not_utf8_is_read_with_replacements() {
    assert_eq!(decode_result(b"git \xff!"), Some("git \u{fffd}!".to_owned()));
    assert_eq!(encode_result(Some("\u{e9}".to_owned())), vec![0xc3, 0xa9]);
}

#[test]
fn steps_run_in_order_until_one_fails() {
    let steps = vec![words(&["pull", "--ff-only"]), words(&["push"])];
    assert_eq!(run_steps(&steps, &[]), Progress::Run(0));
    assert_eq!(run_steps(&steps, &[ok()]), Progress::Run(1));
    assert_eq!(run_steps(&steps, &[ok(), ok()]), Progress::Done(None));
    let failed = Progress::Done(Some("git pull: conflict".to_owned()));
    assert_eq!(run_steps(&steps, &[fails("conflict")]), failed);
    // Whatever else is run, the job stays as it ended.
    assert_eq!(run_steps(&steps, &[fails("conflict"), ok()]), failed);
    assert_eq!(run_steps(&steps, &[fails("conflict"), fails("other")]), failed);
    assert_eq!(run_steps(&steps, &[ok(), ok(), fails("beyond")]), Progress::Done(None));
    assert_eq!(
        run_steps(&steps, &[ok(), fails("rejected")]),
        Progress::Done(Some("git push: rejected".to_owned()))
    );
}

#[test]
fn a_job_without_steps_succeeds() {
    assert_eq!(run_steps(&[], &[]), Progress::Done(None));
    assert_eq!(run_job(git(), vec![], &[]), TaskProgress::Done(vec![]));
}

#[test]
fn the_message_is_the_first_line_worth_reading() {
    let message = |step: &[&str], stderr: &str| match run_steps(&[words(step)], &[fails(stderr)]) {
        Progress::Done(Some(message)) => message,
        other => panic!("a failure has a message: {other:?}"),
    };
    assert_eq!(message(&["fetch"], "\n \t\r\n  fatal: no remote \r\nhint"), "git fetch: fatal: no remote");
    assert_eq!(message(&["fetch"], "\u{a0}\u{3000}one\u{2003}\ntwo"), "git fetch: one");
    assert_eq!(message(&["fetch"], " \n\n\t"), "git fetch: failed");
    assert_eq!(message(&["fetch"], ""), "git fetch: failed");
    assert_eq!(message(&[], "no step"), "git : no step");
}

#[test]
fn a_line_is_the_one_that_std_finds() {
    for text in [
        "",
        "\n",
        "\r\n",
        "a",
        "a\r",
        "\ra\r\r\nb",
        " \n\u{85}x\u{85}\n",
        "\u{200b}\n",
        "\x0b\x0c\n\x1c\n",
    ] {
        let expected = text.lines().find(|l| !l.trim().is_empty()).map(|l| l.trim().to_owned());
        assert_eq!(first_line(text), expected, "{text:?}");
    }
}

#[test]
fn white_space_is_what_std_says() {
    for n in 0..=0x10ffffu32 {
        if let Some(c) = char::from_u32(n) {
            assert_eq!(is_white_space(c), c.is_whitespace(), "U+{n:04X}");
        }
    }
}

#[test]
fn the_failure_of_a_task_is_the_failure_of_its_job() {
    assert_eq!(task_error(Ok(vec![])), None);
    assert_eq!(task_error(Ok(b"git pull: no".to_vec())), Some("git pull: no".to_owned()));
    assert_eq!(task_error(Err("no such task".to_owned())), Some("no such task".to_owned()));
}

#[test]
fn the_task_is_named() {
    assert_eq!(TASK, "network");
}
