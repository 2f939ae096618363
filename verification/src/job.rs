//! A network job as the bytes a background task gets and gives back.

use crate::ffon::{read_elements, write_elements, Child, Element, Entry, Found, Leaf, Node};
use crate::git::{Git, StepOutput};
use crate::steps::{run_steps, Progress, Standing};
use vstd::prelude::*;
use vstd::string::*;
use vstd::utf8::*;

verus! {

/// The task a network job runs as.
pub const TASK: &'static str = "network";

/// What a job is: the folder, the binary, and the steps to run.
pub struct Job {
    pub cwd: Seq<char>,
    pub binary: Seq<char>,
    pub steps: Seq<Seq<Seq<char>>>,
}

/// The job of running `steps` with `git`.
pub open spec fn job_of(git: Git, steps: Seq<Vec<String>>) -> Job {
    Job {
        cwd: git.spec_cwd(),
        binary: git.spec_binary(),
        steps: crate::steps::steps_of(steps),
    }
}

// ---------------------------------------------------------------------------
// The job as the task's input
// ---------------------------------------------------------------------------

/// The object that a step travels as.
pub open spec fn step_entry(step: Seq<Seq<char>>) -> Entry {
    Entry::Obj("step"@, step)
}

/// The elements that a job travels as: the folder, the binary, then one object
/// per step.
pub open spec fn job_entries(job: Job) -> Seq<Entry> {
    seq![Entry::Str(job.cwd), Entry::Str(job.binary)] + Seq::new(
        job.steps.len(),
        |i: int| step_entry(job.steps[i]),
    )
}

/// The bytes that a job travels as.
pub open spec fn job_encoding(job: Job) -> Seq<u8> {
    crate::ffon::ffon_encoding(job_entries(job))
}

/// Whether no text of a job is too long for its record.
pub open spec fn job_fits(job: Job) -> bool {
    &&& crate::ffon::text_fits(job.cwd)
    &&& crate::ffon::text_fits(job.binary)
    &&& forall|i: int, j: int|
        0 <= i < job.steps.len() && 0 <= j < job.steps[i].len() ==> crate::ffon::text_fits(
            #[trigger] job.steps[i][j],
        )
}

/// The text that an element found in a step holds. An empty object is a text
/// that ends in a colon: a job has no objects in its steps, and nothing else
/// has that record. An object that holds elements is no text.
pub open spec fn leaf_text(leaf: Leaf) -> Option<Seq<char>> {
    match leaf {
        Leaf::Str(text) => Some(text),
        Leaf::Obj(key, count) => if count == 0 {
            Some(key.push(':'))
        } else {
            None
        },
    }
}

/// The text that an element found at the top holds, in the same way.
pub open spec fn node_text(node: Node) -> Option<Seq<char>> {
    match node {
        Node::Str(text) => Some(text),
        Node::Obj(key, leaves) => if leaves.len() == 0 {
            Some(key.push(':'))
        } else {
            None
        },
    }
}

/// The texts among an object's children.
pub open spec fn texts_in(leaves: Seq<Leaf>) -> Seq<Seq<char>>
    decreases leaves.len(),
{
    if leaves.len() == 0 {
        Seq::empty()
    } else {
        match leaf_text(leaves.last()) {
            Some(text) => texts_in(leaves.drop_last()).push(text),
            None => texts_in(leaves.drop_last()),
        }
    }
}

/// The step that an element holds: an object's texts, and nothing in a string.
pub open spec fn step_in(node: Node) -> Seq<Seq<char>> {
    match node {
        Node::Str(_) => Seq::empty(),
        Node::Obj(_, leaves) => texts_in(leaves),
    }
}

/// The job that a list of found elements holds: two texts, and a step in each
/// element behind them.
pub open spec fn job_in(nodes: Seq<Node>) -> Option<Job> {
    if nodes.len() >= 2 && node_text(nodes[0]) is Some && node_text(nodes[1]) is Some {
        Some(
            Job {
                cwd: node_text(nodes[0])->0,
                binary: node_text(nodes[1])->0,
                steps: Seq::new((nodes.len() - 2) as nat, |i: int| step_in(nodes[i + 2])),
            },
        )
    } else {
        None
    }
}

/// The job that bytes hold.
pub open spec fn job_read(bytes: Seq<u8>) -> Option<Job> {
    if crate::ffon::lengths_fit(bytes, 0) {
        job_in(crate::ffon::ffon_decoding(bytes))
    } else {
        None
    }
}

/// What a decoded job stands for.
pub open spec fn decoded(job: Option<(Git, Vec<Vec<String>>)>) -> Option<Job> {
    match job {
        Some((git, steps)) => Some(job_of(git, steps@)),
        None => None,
    }
}

/// The object that a step travels as.
fn step_element(step: &[String]) -> (element: Element)
    ensures
        element@ == step_entry(crate::steps::words_of(step@)),
{
    let mut texts: Vec<String> = Vec::new();
    let mut i: usize = 0;
    while i < step.len()
        invariant
            i <= step@.len(),
            texts@.len() == i,
            forall|j: int| 0 <= j < i ==> (#[trigger] texts@[j])@ == step@[j]@,
        decreases step@.len() - i,
    {
        texts.push(step[i].clone());
        i = i + 1;
    }
    assert(crate::steps::words_of(texts@) =~= crate::steps::words_of(step@));
    Element::Obj("step".to_owned(), texts)
}

/// A job as the task's input: the folder, the binary, then one object per step.
pub fn encode_job(git: &Git, steps: &[Vec<String>]) -> (bytes: Vec<u8>)
    ensures
        bytes@ == job_encoding(job_of(*git, steps@)),
{
    let mut elements: Vec<Element> = Vec::new();
    elements.push(Element::Str(git.cwd().to_owned()));
    elements.push(Element::Str(git.binary().to_owned()));
    let mut i: usize = 0;
    while i < steps.len()
        invariant
            i <= steps@.len(),
            elements@.len() == i + 2,
            elements@[0]@ == Entry::Str(git.spec_cwd()),
            elements@[1]@ == Entry::Str(git.spec_binary()),
            forall|j: int|
                2 <= j < i + 2 ==> (#[trigger] elements@[j])@ == step_entry(
                    crate::steps::words_of(steps@[j - 2]@),
                ),
        decreases steps@.len() - i,
    {
        elements.push(step_element(steps[i].as_slice()));
        i = i + 1;
    }
    assert(crate::ffon::entries_of(elements@) =~= job_entries(job_of(*git, steps@)));
    write_elements(elements.as_slice())
}

/// A key with the colon that its record has behind it.
fn with_colon(key: &str) -> (text: String)
    ensures
        text@ == key@.push(':'),
{
    let mut text: String = key.to_owned();
    text.append(":");
    proof {
        reveal_strlit(":");
        assert(text@ =~= key@.push(':'));
    }
    text
}

/// The text that an element found in a step holds.
fn child_text(child: &Child) -> (text: Option<String>)
    ensures
        text.deep_view() == leaf_text(child@),
{
    match child {
        Child::Str(text) => Some(text.clone()),
        Child::Obj(key, count) => if *count == 0 {
            Some(with_colon(key.as_str()))
        } else {
            None
        },
    }
}

/// The text that an element found at the top holds.
fn found_text(found: &Found) -> (text: Option<String>)
    ensures
        text.deep_view() == node_text(found@),
{
    match found {
        Found::Str(text) => Some(text.clone()),
        Found::Obj(key, children) => if children.len() == 0 {
            Some(with_colon(key.as_str()))
        } else {
            None
        },
    }
}

/// The step that an element holds.
fn found_step(found: &Found) -> (step: Vec<String>)
    ensures
        crate::steps::words_of(step@) == step_in(found@),
{
    let mut step: Vec<String> = Vec::new();
    if let Found::Obj(_, children) = found {
        let ghost leaves = crate::ffon::leaves_of(children@);
        let mut i: usize = 0;
        assert(leaves.take(0).len() == 0);
        assert(crate::steps::words_of(step@) =~= texts_in(leaves.take(0)));
        while i < children.len()
            invariant
                i <= children@.len(),
                leaves == crate::ffon::leaves_of(children@),
                crate::steps::words_of(step@) == texts_in(leaves.take(i as int)),
            decreases children@.len() - i,
        {
            let ghost before = step@;
            assert(leaves.take(i + 1).drop_last() =~= leaves.take(i as int));
            assert(leaves.take(i + 1).last() == children@[i as int]@);
            if let Some(text) = child_text(&children[i]) {
                let ghost word = text@;
                step.push(text);
                assert(crate::steps::words_of(step@) =~= crate::steps::words_of(before).push(
                    word,
                ));
            }
            i = i + 1;
        }
        assert(leaves.take(leaves.len() as int) =~= leaves);
    } else {
        assert(crate::steps::words_of(step@) =~= Seq::empty());
    }
    step
}

/// The job that found elements hold, if they hold one.
pub fn job_from_elements(found: &[Found]) -> (job: Option<(Git, Vec<Vec<String>>)>)
    ensures
        decoded(job) == job_in(crate::ffon::nodes_of(found@)),
{
    if found.len() < 2 {
        return None;
    }
    match (found_text(&found[0]), found_text(&found[1])) {
        (Some(cwd), Some(binary)) => {
            let git: Git = Git::new(binary, cwd);
            let mut steps: Vec<Vec<String>> = Vec::new();
            let mut i: usize = 2;
            while i < found.len()
                invariant
                    2 <= i <= found@.len(),
                    steps@.len() == i - 2,
                    forall|j: int|
                        0 <= j < i - 2 ==> crate::steps::words_of((#[trigger] steps@[j])@)
                            == step_in(found@[j + 2]@),
                decreases found@.len() - i,
            {
                steps.push(found_step(&found[i]));
                i = i + 1;
            }
            proof {
                let nodes = crate::ffon::nodes_of(found@);
                assert(crate::steps::steps_of(steps@) =~= Seq::new(
                    (nodes.len() - 2) as nat,
                    |i: int| step_in(nodes[i + 2]),
                ));
            }
            Some((git, steps))
        },
        _ => None,
    }
}

/// The inverse of [`encode_job`].
pub fn decode_job(bytes: &[u8]) -> (job: Option<(Git, Vec<Vec<String>>)>)
    ensures
        decoded(job) == job_read(bytes@),
        !crate::ffon::begins_with_record(bytes@) ==> job is None,
        forall|sent: Job|
            job_fits(sent) && bytes@ == #[trigger] job_encoding(sent) ==> decoded(job) == Some(
                sent,
            ),
{
    proof {
        assert forall|sent: Job|
            job_fits(sent) && bytes@ == #[trigger] job_encoding(
                sent,
            ) implies crate::ffon::entries_fit(job_entries(sent)) && job_in(
            crate::ffon::entries_found(job_entries(sent)),
        ) == Some(sent) by {
            lemma_job_entries_fit(sent);
            law_job_found_whole(sent);
        }
    }
    match read_elements(bytes) {
        Some(found) => job_from_elements(found.as_slice()),
        None => None,
    }
}

// ---------------------------------------------------------------------------
// The result as the task's output
// ---------------------------------------------------------------------------

/// The bytes that a job's result travels as: none on success, else the message.
pub open spec fn result_bytes(error: Option<Seq<char>>) -> Seq<u8> {
    match error {
        Some(message) => encode_utf8(message),
        None => Seq::empty(),
    }
}

/// The text that `String::from_utf8_lossy` makes of bytes.
pub uninterp spec fn lossy_text(bytes: Seq<u8>) -> Seq<char>;

/// The result that bytes hold.
pub open spec fn result_in(bytes: Seq<u8>) -> Option<Seq<char>> {
    if bytes.len() == 0 {
        None
    } else if valid_utf8(bytes) {
        Some(decode_utf8(bytes))
    } else {
        Some(lossy_text(bytes))
    }
}

/// Calls `String::from_utf8_lossy`. Trusted: the text depends on the bytes
/// alone, valid UTF-8 is decoded as it is, and the replacement character stands
/// in for what is not. How many of them stand where is not said here.
#[verifier::external_body]
fn from_utf8_lossy(bytes: &[u8]) -> (text: String)
    ensures
        text@ == lossy_text(bytes@),
        valid_utf8(bytes@) ==> text@ == decode_utf8(bytes@),
        !valid_utf8(bytes@) ==> text@.contains('\u{fffd}'),
{
    String::from_utf8_lossy(bytes).into_owned()
}

/// A job's result as the task's output: empty on success, else the message.
pub fn encode_result(error: Option<String>) -> (bytes: Vec<u8>)
    ensures
        bytes@ == result_bytes(error.deep_view()),
{
    match error {
        Some(message) => message.as_str().as_bytes_vec(),
        None => Vec::new(),
    }
}

/// The inverse of [`encode_result`], for a message that is not empty.
pub fn decode_result(bytes: &[u8]) -> (error: Option<String>)
    ensures
        error.deep_view() == result_in(bytes@),
        !valid_utf8(bytes@) ==> error is Some && error->0@.contains('\u{fffd}'),
{
    if bytes.len() == 0 {
        None
    } else {
        Some(from_utf8_lossy(bytes))
    }
}

// ---------------------------------------------------------------------------
// The task
// ---------------------------------------------------------------------------

/// Where a task stands.
#[derive(Debug, PartialEq, Eq)]
pub enum TaskProgress {
    /// This git command is to be run next.
    Run(Git, Vec<String>),
    /// The task has ended, with this output.
    Done(Vec<u8>),
}

/// What a [`TaskProgress`] stands for.
pub enum TaskStanding {
    Run { cwd: Seq<char>, binary: Seq<char>, step: Seq<Seq<char>> },
    Done(Seq<u8>),
}

impl View for TaskProgress {
    type V = TaskStanding;

    open spec fn view(&self) -> TaskStanding {
        match self {
            TaskProgress::Run(git, step) => TaskStanding::Run {
                cwd: git.spec_cwd(),
                binary: git.spec_binary(),
                step: crate::steps::words_of(step@),
            },
            TaskProgress::Done(output) => TaskStanding::Done(output@),
        }
    }
}

/// Where a task stands once its job's first steps have given these outputs.
pub open spec fn task_standing(job: Job, outputs: Seq<StepOutput>) -> TaskStanding {
    match crate::steps::standing(job.steps, outputs) {
        Standing::Run(i) => TaskStanding::Run {
            cwd: job.cwd,
            binary: job.binary,
            step: job.steps[i],
        },
        Standing::Done(error) => TaskStanding::Done(result_bytes(error)),
    }
}

/// Run a decoded job: what to run next, or how it ended. `outputs` are those of
/// the steps run so far, as for [`run_steps`].
pub fn run_job(git: Git, steps: Vec<Vec<String>>, outputs: &[StepOutput]) -> (progress:
    TaskProgress)
    ensures
        progress@ == task_standing(job_of(git, steps@), outputs@),
{
    match run_steps(steps.as_slice(), outputs) {
        Progress::Run(i) => {
            proof {
                crate::steps::law_steps_in_order(
                    crate::steps::steps_of(steps@),
                    outputs@,
                    i as int,
                );
            }
            let mut steps: Vec<Vec<String>> = steps;
            let step: Vec<String> = steps.swap_remove(i);
            TaskProgress::Run(git, step)
        },
        Progress::Done(error) => TaskProgress::Done(encode_result(error)),
    }
}

/// The task itself, in the worker instance: run the job, report how it ended.
/// `outputs` are those of the steps run so far, as for [`run_steps`].
pub fn run_task(input: &[u8], outputs: &[StepOutput]) -> (progress: Result<TaskProgress, String>)
    ensures
        match job_read(input@) {
            Some(job) => {
                &&& progress matches Ok(progress)
                &&& progress@ == task_standing(job, outputs@)
            },
            None => {
                &&& progress matches Err(message)
                &&& message@ == "gitclient: a malformed job"@
            },
        },
        !crate::ffon::begins_with_record(input@) ==> progress is Err,
        forall|sent: Job|
            job_fits(sent) && input@ == #[trigger] job_encoding(sent) ==> {
                &&& progress matches Ok(progress)
                &&& progress@ == task_standing(sent, outputs@)
            },
{
    match decode_job(input) {
        Some((git, steps)) => Ok(run_job(git, steps, outputs)),
        None => Err("gitclient: a malformed job".to_owned()),
    }
}

/// How a job ended, from the result of its task: the task's own failure counts
/// as the job's.
pub fn task_error(result: Result<Vec<u8>, String>) -> (error: Option<String>)
    ensures
        error.deep_view() == match result {
            Ok(output) => result_in(output@),
            Err(message) => Some(message@),
        },
{
    match result {
        Ok(output) => decode_result(output.as_slice()),
        Err(message) => Some(message),
    }
}

// ---------------------------------------------------------------------------
// Laws
// ---------------------------------------------------------------------------

/// A job survives the trip as elements: the folder, the binary and every step
/// are found as they were sent, in order and unchanged, whatever their texts.
pub proof fn law_job_found_whole(job: Job)
    ensures
        job_in(crate::ffon::entries_found(job_entries(job))) == Some(job),
{
    let entries = job_entries(job);
    let nodes = crate::ffon::entries_found(entries);
    assert(nodes[0] == crate::ffon::entry_found(Entry::Str(job.cwd)));
    assert(nodes[1] == crate::ffon::entry_found(Entry::Str(job.binary)));
    lemma_colon_back(job.cwd);
    lemma_colon_back(job.binary);
    let steps = Seq::new((nodes.len() - 2) as nat, |i: int| step_in(nodes[i + 2]));
    assert forall|i: int| 0 <= i < job.steps.len() implies #[trigger] steps[i]
        == job.steps[i] by {
        assert(entries[i + 2] == step_entry(job.steps[i]));
        lemma_step_found(job.steps[i]);
    }
    assert(steps =~= job.steps);
}

/// A result survives the trip as bytes, unless it is an empty message, which
/// nothing tells from success.
pub proof fn law_result_survives(error: Option<Seq<char>>)
    requires
        error matches Some(message) ==> message.len() > 0,
    ensures
        result_in(result_bytes(error)) == error,
{
    if let Some(message) = error {
        encode_utf8_first_scalar(message);
        encode_utf8_valid_utf8(message);
        encode_utf8_decode_utf8(message);
    }
}

/// Running a job through its bytes gives what running its steps gives: the task
/// ends when they do, and its output reads back as how they ended.
pub proof fn law_end_survives(job: Job, outputs: Seq<StepOutput>, error: Option<Seq<char>>)
    requires
        crate::steps::standing(job.steps, outputs) == Standing::Done(error),
    ensures
        task_standing(job, outputs) == TaskStanding::Done(result_bytes(error)),
        result_in(result_bytes(error)) == error,
{
    reveal_strlit("git ");
    law_result_survives(error);
}

/// The colon that marks a key is the one that a text lost to it.
proof fn lemma_colon_back(text: Seq<char>)
    ensures
        crate::ffon::ends_in_colon(text) ==> text.drop_last().push(':') == text,
{
    if crate::ffon::ends_in_colon(text) {
        assert(text.drop_last().push(':') =~= text);
    }
}

proof fn lemma_step_found(step: Seq<Seq<char>>)
    ensures
        step_in(crate::ffon::entry_found(step_entry(step))) == step,
    decreases step.len(),
{
    let leaves = Seq::new(step.len(), |i: int| crate::ffon::text_found(step[i]));
    if step.len() > 0 {
        let front = step.drop_last();
        lemma_step_found(front);
        lemma_colon_back(step.last());
        assert(leaves.drop_last() =~= Seq::new(
            front.len(),
            |i: int| crate::ffon::text_found(front[i]),
        ));
        assert(front.push(step.last()) =~= step);
    } else {
        assert(texts_in(leaves) =~= step);
    }
}

proof fn lemma_job_entries_fit(job: Job)
    requires
        job_fits(job),
    ensures
        crate::ffon::entries_fit(job_entries(job)),
{
    let entries = job_entries(job);
    reveal_strlit("step");
    is_ascii_chars_encode_utf8("step"@);
    assert forall|i: int| 0 <= i < entries.len() implies crate::ffon::entry_fits(
        #[trigger] entries[i],
    ) by {
        if i >= 2 {
            let step = job.steps[i - 2];
            assert(entries[i] == step_entry(step));
            assert forall|j: int| 0 <= j < step.len() implies crate::ffon::text_fits(
                #[trigger] step[j],
            ) by {
                assert(crate::ffon::text_fits(job.steps[i - 2][j]));
            }
        }
    }
}

/// A job is the folder and the binary of its git and all its steps, with all
/// their arguments, each in its place; and so is a job that was decoded.
pub proof fn law_job_of(git: Git, steps: Vec<Vec<String>>)
    ensures
        job_of(git, steps@).cwd == git.spec_cwd(),
        job_of(git, steps@).binary == git.spec_binary(),
        job_of(git, steps@).steps.len() == steps@.len(),
        forall|i: int|
            0 <= i < steps@.len() ==> (#[trigger] job_of(git, steps@).steps[i]).len()
                == steps@[i]@.len(),
        forall|i: int, j: int|
            0 <= i < steps@.len() && 0 <= j < steps@[i]@.len() ==> #[trigger] job_of(
                git,
                steps@,
            ).steps[i][j] == steps@[i]@[j]@,
        decoded(Some((git, steps))) == Some(job_of(git, steps@)),
        decoded(None) is None,
{
}

/// A job is written as its folder, its binary, and each step behind the steps
/// before it.
pub proof fn law_job_written(job: Job, step: Seq<Seq<char>>)
    ensures
        job_encoding(Job { cwd: job.cwd, binary: job.binary, steps: Seq::empty() })
            == crate::ffon::ffon_encoding(seq![Entry::Str(job.cwd)]) + crate::ffon::ffon_encoding(
            seq![Entry::Str(job.binary)],
        ),
        job_encoding(Job { cwd: job.cwd, binary: job.binary, steps: job.steps.push(step) })
            == job_encoding(job) + crate::ffon::ffon_encoding(seq![Entry::Obj("step"@, step)]),
{
    let none = Job { cwd: job.cwd, binary: job.binary, steps: Seq::empty() };
    assert(job_entries(none) =~= seq![Entry::Str(job.cwd)] + seq![Entry::Str(job.binary)]);
    crate::ffon::law_encoding_joins(seq![Entry::Str(job.cwd)], seq![Entry::Str(job.binary)]);
    let more = Job { cwd: job.cwd, binary: job.binary, steps: job.steps.push(step) };
    assert(job_entries(more) =~= job_entries(job) + seq![Entry::Obj("step"@, step)]);
    crate::ffon::law_encoding_joins(job_entries(job), seq![Entry::Obj("step"@, step)]);
}

/// A job fits exactly when none of its texts has more UTF-8 bytes than four
/// bytes can count.
pub proof fn law_job_fits(job: Job)
    ensures
        job_fits(job) <==> {
            &&& encode_utf8(job.cwd).len() <= 0xffff_ffff
            &&& encode_utf8(job.binary).len() <= 0xffff_ffff
            &&& forall|i: int, j: int|
                0 <= i < job.steps.len() && 0 <= j < job.steps[i].len() ==> encode_utf8(
                    #[trigger] job.steps[i][j],
                ).len() <= 0xffff_ffff
        },
{
    if job_fits(job) {
        assert forall|i: int, j: int|
            0 <= i < job.steps.len() && 0 <= j < job.steps[i].len() implies encode_utf8(
            #[trigger] job.steps[i][j],
        ).len() <= 0xffff_ffff by {
            assert(crate::ffon::text_fits(job.steps[i][j]));
        }
    }
}

/// The arguments in an object are those in its first children and then those in
/// its others. A string is one, an empty object is one with a colon behind its
/// key, and an object that holds elements is none.
pub proof fn law_arguments(
    first: Seq<Leaf>,
    second: Seq<Leaf>,
    key: Seq<char>,
    text: Seq<char>,
    count: nat,
)
    ensures
        step_in(Node::Obj(key, first + second)) == step_in(Node::Obj(key, first)) + step_in(
            Node::Obj(key, second),
        ),
        step_in(Node::Obj(key, seq![Leaf::Str(text)])) == seq![text],
        step_in(Node::Obj(key, seq![Leaf::Obj(text, 0)])) == seq![text.push(':')],
        count > 0 ==> step_in(Node::Obj(key, seq![Leaf::Obj(text, count)])).len() == 0,
        step_in(Node::Obj(key, Seq::empty())).len() == 0,
        step_in(Node::Str(text)).len() == 0,
    decreases second.len(),
{
    lemma_one_text(Leaf::Str(text));
    lemma_one_text(Leaf::Obj(text, 0));
    lemma_one_text(Leaf::Obj(text, count));
    if second.len() == 0 {
        assert(first + second =~= first);
        assert(texts_in(first) + texts_in(second) =~= texts_in(first));
    } else {
        law_arguments(first, second.drop_last(), key, text, count);
        assert((first + second).drop_last() =~= first + second.drop_last());
        assert(texts_in(first + second) =~= texts_in(first) + texts_in(second));
    }
}

proof fn lemma_one_text(leaf: Leaf)
    ensures
        texts_in(seq![leaf]) == match leaf_text(leaf) {
            Some(text) => seq![text],
            None => Seq::empty(),
        },
{
    let one = seq![leaf];
    assert(one.drop_last() =~= Seq::<Leaf>::empty());
    assert(texts_in(one.drop_last()) =~= Seq::<Seq<char>>::empty());
    if let Some(text) = leaf_text(leaf) {
        assert(Seq::<Seq<char>>::empty().push(text) =~= seq![text]);
    }
}

/// Elements hold a job when the first two are texts: the folder and the binary,
/// each a string, or an empty object for a text that ends in a colon. Each
/// element behind them is a step, in order.
pub proof fn law_job_in(first: Node, second: Node, rest: Seq<Node>)
    ensures
        ({
            let found = job_in(seq![first, second] + rest);
            &&& found is Some <==> {
                &&& first matches Node::Obj(_, leaves) ==> leaves.len() == 0
                &&& second matches Node::Obj(_, leaves) ==> leaves.len() == 0
            }
            &&& found matches Some(job) ==> {
                &&& first matches Node::Str(text) ==> job.cwd == text
                &&& first matches Node::Obj(key, _) ==> job.cwd == key.push(':')
                &&& second matches Node::Str(text) ==> job.binary == text
                &&& second matches Node::Obj(key, _) ==> job.binary == key.push(':')
                &&& job.steps.len() == rest.len()
                &&& forall|i: int|
                    0 <= i < rest.len() ==> #[trigger] job.steps[i] == step_in(rest[i])
            }
        }),
        job_in(Seq::empty()) is None,
        job_in(seq![first]) is None,
{
    let nodes = seq![first, second] + rest;
    assert forall|i: int| 0 <= i < rest.len() implies #[trigger] nodes[i + 2] == rest[i] by {}
}

/// Bytes hold the job that the elements decoded from them hold, and none where
/// a record ends beyond what a `usize` can count.
pub proof fn law_job_read(bytes: Seq<u8>, nodes: Seq<Node>)
    requires
        nodes == crate::ffon::ffon_decoding(bytes),
    ensures
        crate::ffon::lengths_fit(bytes, 0) ==> job_read(bytes) == job_in(nodes),
        !crate::ffon::lengths_fit(bytes, 0) ==> job_read(bytes) is None,
{
}

/// Success is written as no bytes, and a failure as its message in UTF-8.
pub proof fn law_result_written(message: Seq<char>)
    ensures
        result_bytes(None).len() == 0,
        valid_utf8(result_bytes(Some(message))),
        decode_utf8(result_bytes(Some(message))) == message,
{
    encode_utf8_valid_utf8(message);
    encode_utf8_decode_utf8(message);
}

/// No bytes are read as success, and any others as a failure, whose message is
/// their text where they are UTF-8.
pub proof fn law_result_read(bytes: Seq<u8>)
    ensures
        result_in(bytes) is None <==> bytes.len() == 0,
        bytes.len() > 0 && valid_utf8(bytes) ==> encode_utf8(result_in(bytes)->0) == bytes,
        bytes.len() > 0 && !valid_utf8(bytes) ==> result_in(bytes) == Some(lossy_text(bytes)),
{
    if valid_utf8(bytes) {
        decode_utf8_encode_utf8(bytes);
    }
}

/// While every step has succeeded and there are more, the task asks for the
/// step behind those that have run, as it was sent, in the folder and with the
/// binary that were sent.
pub proof fn law_task_runs_next_step(job: Job, outputs: Seq<StepOutput>)
    requires
        outputs.len() < job.steps.len(),
        forall|j: int| 0 <= j < outputs.len() ==> (#[trigger] outputs[j]).ok,
    ensures
        task_standing(job, outputs) == (TaskStanding::Run {
            cwd: job.cwd,
            binary: job.binary,
            step: job.steps[outputs.len() as int],
        }),
{
    crate::steps::law_next_step(job.steps, outputs);
}

/// A step that failed ends the task, with the message for the first that did as
/// its output.
pub proof fn law_task_stops_at_failure(job: Job, outputs: Seq<StepOutput>, i: int)
    requires
        0 <= i < job.steps.len(),
        0 <= i < outputs.len(),
        !outputs[i].ok,
        forall|j: int| 0 <= j < i ==> (#[trigger] outputs[j]).ok,
    ensures
        task_standing(job, outputs) == TaskStanding::Done(
            encode_utf8(crate::steps::failure_of(job.steps[i], outputs[i].stderr@)),
        ),
{
    crate::steps::law_failure_stops(job.steps, outputs, i);
}

/// Once every step has succeeded the task has ended, without output.
pub proof fn law_task_succeeds(job: Job, outputs: Seq<StepOutput>)
    requires
        job.steps.len() <= outputs.len(),
        forall|j: int| 0 <= j < job.steps.len() ==> (#[trigger] outputs[j]).ok,
    ensures
        task_standing(job, outputs) == TaskStanding::Done(Seq::empty()),
{
    crate::steps::law_success(job.steps, outputs);
}

/// A task's progress stands for the command that it names, or the output that
/// it gives.
pub proof fn law_task_progress_view(git: Git, step: Vec<String>, output: Vec<u8>)
    ensures
        ({
            &&& TaskProgress::Run(git, step)@ matches TaskStanding::Run {
                cwd,
                binary,
                step: words,
            }
            &&& cwd == git.spec_cwd()
            &&& binary == git.spec_binary()
            &&& words.len() == step@.len()
            &&& forall|i: int| 0 <= i < step@.len() ==> #[trigger] words[i] == step@[i]@
        }),
        TaskProgress::Done(output)@ == TaskStanding::Done(output@),
{
}

} // verus!
