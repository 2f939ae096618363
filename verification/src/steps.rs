//! A job's steps: which one to run next, and how the job ends.

use crate::git::StepOutput;
use crate::text::first_line;
use vstd::prelude::*;
use vstd::string::*;

verus! {

/// What a step's arguments stand for.
pub open spec fn words_of(args: Seq<String>) -> Seq<Seq<char>> {
    Seq::new(args.len(), |i: int| args[i]@)
}

/// What a list of steps stands for.
pub open spec fn steps_of(steps: Seq<Vec<String>>) -> Seq<Seq<Seq<char>>> {
    Seq::new(steps.len(), |i: int| words_of(steps[i]@))
}

/// Where a job stands.
#[derive(Debug, PartialEq, Eq)]
pub enum Progress {
    /// The step at this index is to be run next.
    Run(usize),
    /// The job has ended: `None` on success, otherwise the message naming the
    /// step that failed.
    Done(Option<String>),
}

/// What a [`Progress`] stands for.
pub enum Standing {
    Run(int),
    Done(Option<Seq<char>>),
}

impl View for Progress {
    type V = Standing;

    open spec fn view(&self) -> Standing {
        match self {
            Progress::Run(step) => Standing::Run(*step as int),
            Progress::Done(error) => Standing::Done(error.deep_view()),
        }
    }
}

/// The message for a step that failed: its git subcommand, and the first line
/// worth reading of what git said.
pub open spec fn failure_of(step: Seq<Seq<char>>, stderr: Seq<char>) -> Seq<char> {
    let sub = if step.len() > 0 {
        step[0]
    } else {
        Seq::empty()
    };
    let first = match crate::text::first_line_of(stderr) {
        Some(line) => line,
        None => "failed"@,
    };
    "git "@ + sub + ": "@ + first
}

/// Whether the step at `i`, one of the first `n`, is the first that failed.
pub open spec fn failed_at(outputs: Seq<StepOutput>, n: int, i: int) -> bool {
    &&& 0 <= i < n
    &&& !outputs[i].ok
    &&& forall|j: int| 0 <= j < i ==> (#[trigger] outputs[j]).ok
}

/// How many of a job's steps have run.
pub open spec fn steps_run(steps: Seq<Seq<Seq<char>>>, outputs: Seq<StepOutput>) -> int {
    if outputs.len() < steps.len() {
        outputs.len() as int
    } else {
        steps.len() as int
    }
}

/// Where a job stands once its first steps have given these outputs.
pub open spec fn standing(steps: Seq<Seq<Seq<char>>>, outputs: Seq<StepOutput>) -> Standing {
    let n = steps_run(steps, outputs);
    if exists|i: int| failed_at(outputs, n, i) {
        let i = choose|i: int| failed_at(outputs, n, i);
        Standing::Done(Some(failure_of(steps[i], outputs[i].stderr@)))
    } else if outputs.len() < steps.len() {
        Standing::Run(outputs.len() as int)
    } else {
        Standing::Done(None)
    }
}

/// The message for a step that failed.
fn failure(step: &[String], stderr: &str) -> (message: String)
    ensures
        message@ == failure_of(words_of(step@), stderr@),
{
    let mut message: String = "git ".to_owned();
    if step.len() > 0 {
        message.append(step[0].as_str());
    }
    message.append(": ");
    match first_line(stderr) {
        Some(line) => message.append(line.as_str()),
        None => message.append("failed"),
    }
    message
}

/// Run `steps` in order, stopping at the first failure. `outputs` are those of
/// the steps run so far, first to last; the caller runs the step this asks for
/// and calls again with its output behind the others.
///
/// Stopping is what makes "commit and sync" a pull followed by a push rather
/// than two independent things that can both half-happen.
pub fn run_steps(steps: &[Vec<String>], outputs: &[StepOutput]) -> (progress: Progress)
    ensures
        progress@ == standing(steps_of(steps@), outputs@),
{
    let mut i: usize = 0;
    while i < steps.len()
        invariant
            i <= steps@.len(),
            i <= outputs@.len(),
            forall|j: int| 0 <= j < i ==> (#[trigger] outputs@[j]).ok,
        decreases steps@.len() - i,
    {
        if i == outputs.len() {
            return Progress::Run(i);
        }
        if !outputs[i].ok {
            proof {
                let n = steps_run(steps_of(steps@), outputs@);
                assert(failed_at(outputs@, n, i as int));
                lemma_one_first_failure(outputs@, n, i as int);
            }
            return Progress::Done(Some(failure(steps[i].as_slice(), outputs[i].stderr.as_str())));
        }
        i = i + 1;
    }
    Progress::Done(None)
}

proof fn lemma_one_first_failure(outputs: Seq<StepOutput>, n: int, i: int)
    requires
        failed_at(outputs, n, i),
    ensures
        forall|k: int| failed_at(outputs, n, k) ==> k == i,
{
    assert forall|k: int| failed_at(outputs, n, k) implies k == i by {
        assert(!outputs[i].ok && !outputs[k].ok);
    }
}

// ---------------------------------------------------------------------------
// Laws
// ---------------------------------------------------------------------------

/// A failing step stops the ones after it: once one of a job's steps has
/// failed, the job has ended, with the message for the first that did.
pub proof fn law_failure_stops(
    steps: Seq<Seq<Seq<char>>>,
    outputs: Seq<StepOutput>,
    i: int,
)
    requires
        0 <= i < steps.len(),
        0 <= i < outputs.len(),
        !outputs[i].ok,
        forall|j: int| 0 <= j < i ==> (#[trigger] outputs[j]).ok,
    ensures
        standing(steps, outputs) == Standing::Done(
            Some(failure_of(steps[i], outputs[i].stderr@)),
        ),
{
    let n = steps_run(steps, outputs);
    assert(failed_at(outputs, n, i));
    lemma_one_first_failure(outputs, n, i);
}

/// Steps run in order: a step is asked for only when every step before it has
/// run and none has failed.
pub proof fn law_steps_in_order(steps: Seq<Seq<Seq<char>>>, outputs: Seq<StepOutput>, i: int)
    requires
        standing(steps, outputs) == Standing::Run(i),
    ensures
        i == outputs.len(),
        i < steps.len(),
        forall|j: int| 0 <= j < i ==> (#[trigger] outputs[j]).ok,
{
    lemma_first_failure(outputs, i);
}

/// A job succeeds exactly when each of its steps has run and succeeded.
pub proof fn law_success(steps: Seq<Seq<Seq<char>>>, outputs: Seq<StepOutput>)
    ensures
        standing(steps, outputs) == Standing::Done(None) <==> {
            &&& steps.len() <= outputs.len()
            &&& forall|j: int| 0 <= j < steps.len() ==> (#[trigger] outputs[j]).ok
        },
{
    if steps.len() <= outputs.len() {
        lemma_first_failure(outputs, steps.len() as int);
    }
}

/// A job that has ended stays as it ended, whatever else is run.
pub proof fn law_end_is_final(
    steps: Seq<Seq<Seq<char>>>,
    outputs: Seq<StepOutput>,
    more: Seq<StepOutput>,
)
    requires
        standing(steps, outputs) is Done,
    ensures
        standing(steps, outputs + more) == standing(steps, outputs),
{
    let all = outputs + more;
    let n = steps_run(steps, outputs);
    if exists|i: int| failed_at(outputs, n, i) {
        let i = choose|i: int| failed_at(outputs, n, i);
        assert forall|j: int| 0 <= j < i implies (#[trigger] all[j]).ok by {
            assert(outputs[j].ok);
        }
        law_failure_stops(steps, all, i);
    } else {
        law_success(steps, outputs);
        assert forall|j: int| 0 <= j < steps.len() implies (#[trigger] all[j]).ok by {
            assert(outputs[j].ok);
        }
        law_success(steps, all);
    }
}

/// Among outputs of which one failed, one failed first.
proof fn lemma_first_failure(outputs: Seq<StepOutput>, n: int)
    requires
        n <= outputs.len(),
    ensures
        (exists|i: int| failed_at(outputs, n, i)) || forall|j: int|
            0 <= j < n ==> (#[trigger] outputs[j]).ok,
    decreases n,
{
    if n > 0 {
        let last = n - 1;
        lemma_first_failure(outputs, last);
        if exists|i: int| failed_at(outputs, last, i) {
            let i = choose|i: int| failed_at(outputs, last, i);
            assert(failed_at(outputs, n, i));
        } else if !outputs[last].ok {
            assert(failed_at(outputs, n, last));
        }
    }
}

/// While every step has succeeded and there are more, the next one is asked
/// for: the one behind those that have run.
pub proof fn law_next_step(steps: Seq<Seq<Seq<char>>>, outputs: Seq<StepOutput>)
    requires
        outputs.len() < steps.len(),
        forall|j: int| 0 <= j < outputs.len() ==> (#[trigger] outputs[j]).ok,
    ensures
        standing(steps, outputs) == Standing::Run(outputs.len() as int),
{
    assert forall|i: int| !failed_at(outputs, outputs.len() as int, i) by {
        if 0 <= i < outputs.len() {
            assert(outputs[i].ok);
        }
    }
}

/// The message for a failure is git's subcommand and the first line of what
/// git said that is not blank, without the white space around it.
pub proof fn law_failure_shows_line(
    step: Seq<Seq<char>>,
    before: Seq<char>,
    lead: Seq<char>,
    shown: Seq<char>,
    trail: Seq<char>,
    after: Seq<char>,
)
    requires
        // Blank lines,
        forall|i: int| 0 <= i < before.len() ==> crate::text::white_space(#[trigger] before[i]),
        before.len() > 0 ==> before.last() == '\n',
        // then the line, with white space around what is shown,
        forall|i: int|
            0 <= i < lead.len() ==> crate::text::white_space(#[trigger] lead[i]) && lead[i]
                != '\n',
        shown.len() > 0,
        !crate::text::white_space(shown[0]),
        !crate::text::white_space(shown.last()),
        forall|i: int| 0 <= i < shown.len() ==> #[trigger] shown[i] != '\n',
        forall|i: int|
            0 <= i < trail.len() ==> crate::text::white_space(#[trigger] trail[i]) && trail[i]
                != '\n',
        // then the end of the text or the next line.
        after.len() > 0 ==> after[0] == '\n',
    ensures
        ({
            let stderr = before + lead + shown + trail + after;
            &&& step.len() > 0 ==> failure_of(step, stderr) == "git "@ + step[0] + ": "@ + shown
            &&& step.len() == 0 ==> failure_of(step, stderr) == "git : "@ + shown
        }),
{
    crate::text::law_first_line_shown(before, lead, shown, trail, after);
    reveal_strlit("git ");
    reveal_strlit(": ");
    reveal_strlit("git : ");
    if step.len() == 0 {
        assert("git "@ + Seq::<char>::empty() + ": "@ + shown =~= "git : "@ + shown);
    }
}

/// The message for a failure of which git said nothing worth reading says that
/// it failed.
pub proof fn law_failure_without_line(step: Seq<Seq<char>>, stderr: Seq<char>)
    requires
        forall|i: int| 0 <= i < stderr.len() ==> crate::text::white_space(#[trigger] stderr[i]),
    ensures
        step.len() > 0 ==> failure_of(step, stderr) == "git "@ + step[0] + ": failed"@,
        step.len() == 0 ==> failure_of(step, stderr) == "git : failed"@,
{
    crate::text::law_first_line(stderr);
    reveal_strlit("git ");
    reveal_strlit(": ");
    reveal_strlit("failed");
    reveal_strlit(": failed");
    reveal_strlit("git : failed");
    if step.len() > 0 {
        assert("git "@ + step[0] + ": "@ + "failed"@ =~= "git "@ + step[0] + ": failed"@);
    } else {
        assert("git "@ + Seq::<char>::empty() + ": "@ + "failed"@ =~= "git : failed"@);
    }
}

/// Steps stand for all their arguments, each in its place.
pub proof fn law_steps_of(steps: Seq<Vec<String>>)
    ensures
        steps_of(steps).len() == steps.len(),
        forall|i: int|
            0 <= i < steps.len() ==> (#[trigger] steps_of(steps)[i]).len() == steps[i]@.len(),
        forall|i: int, j: int|
            0 <= i < steps.len() && 0 <= j < steps[i]@.len() ==> #[trigger] steps_of(steps)[i][j]
                == steps[i]@[j]@,
{
}

/// Arguments stand for all their texts, each in its place.
pub proof fn law_words_of(args: Seq<String>)
    ensures
        words_of(args).len() == args.len(),
        forall|i: int| 0 <= i < args.len() ==> #[trigger] words_of(args)[i] == args[i]@,
{
}

/// A progress stands for the step that it names, or the end that it gives.
pub proof fn law_progress_view(step: usize, message: String)
    ensures
        Progress::Run(step)@ == Standing::Run(step as int),
        Progress::Done(None)@ == Standing::Done(None),
        Progress::Done(Some(message))@ == Standing::Done(Some(message@)),
{
}

} // verus!
