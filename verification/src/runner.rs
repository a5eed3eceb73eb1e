//! The benchmark run as a state machine: the caller performs each invocation and reports
//! how it went; the runner keeps the samples and decides what happens next.

use crate::config::{BenchmarkConfig, ConfigView};
use vstd::prelude::*;
use vstd::utf8::*;

verus! {

/// Why a run was abandoned.
#[derive(Clone, Copy, Debug, PartialEq, Eq, Structural)]
pub enum RunError {
    /// The command could not be started.
    SpawnFailed,
    /// The command ran and reported failure.
    CommandFailed,
    /// The captured output was to be shown and is not valid UTF-8.
    InvalidOutput,
}

/// How one invocation of the command went.
#[derive(Debug, PartialEq, Eq)]
pub struct RunResult {
    /// Wall-clock time from just before the spawn until the child had exited, in whole
    /// nanoseconds.
    pub elapsed_nanos: u64,
    /// Whether the child's exit status reported success.
    pub exit_success: bool,
    /// Everything the child wrote to its standard output.
    pub captured_stdout: Vec<u8>,
}

/// What the caller reports after trying to invoke the command once.
#[derive(Debug, PartialEq, Eq)]
pub enum RunOutcome {
    /// The command was started and has exited.
    Completed(RunResult),
    /// The command could not be started.
    SpawnFailed,
}

/// What the caller has to do next.
#[derive(Clone, Copy, Debug, PartialEq, Eq)]
pub enum Action<'a> {
    /// Invoke the command once with these arguments and report the outcome.
    Invoke { command: &'a str, arguments: &'a Vec<String> },
    /// Every run succeeded: summarise these samples, the elapsed times in nanoseconds.
    Report { samples: &'a Vec<u64> },
    /// Stop without a summary.
    Abort { error: RunError },
}

/// An `Action` as a mathematical value.
pub enum ActionView {
    Invoke { command: Seq<char>, arguments: Seq<Seq<char>> },
    Report { samples: Seq<u64> },
    Abort { error: RunError },
}

impl<'a> View for Action<'a> {
    type V = ActionView;

    open spec fn view(&self) -> ActionView {
        match *self {
            Action::Invoke { command, arguments } => ActionView::Invoke {
                command: command@,
                arguments: arguments.deep_view(),
            },
            Action::Report { samples } => ActionView::Report { samples: samples@ },
            Action::Abort { error } => ActionView::Abort { error },
        }
    }
}

/// What is to be shown for one recorded outcome, besides the final summary.
#[derive(Debug, PartialEq, Eq)]
pub struct RunNotes {
    /// The run's number, counted from 1, and its elapsed time in nanoseconds, when
    /// timings are shown.
    pub timing: Option<(u32, u64)>,
    /// The command's output as text, when output is shown and there is any.
    pub echo: Option<String>,
}

/// `RunNotes` as a mathematical value.
pub struct NotesView {
    pub timing: Option<(u32, u64)>,
    pub echo: Option<Seq<char>>,
}

impl View for RunNotes {
    type V = NotesView;

    open spec fn view(&self) -> NotesView {
        NotesView { timing: self.timing, echo: self.echo.deep_view() }
    }
}

/// The state of a run as mathematical values.
pub struct RunnerView {
    pub config: ConfigView,
    /// Elapsed times of the successful runs so far in nanoseconds, oldest first.
    pub samples: Seq<u64>,
    /// Set once the run has been abandoned.
    pub failure: Option<RunError>,
}

/// The command ran and reported success.
pub open spec fn succeeded(outcome: RunOutcome) -> bool {
    outcome matches RunOutcome::Completed(result) && result.exit_success
}

/// The error with which an invocation stops the run, if it does: the command could not
/// be started, or it reported failure, or it succeeded with output that is to be shown
/// (`verbose` is set and there is some) and is not valid UTF-8.
pub open spec fn stopping_error(config: ConfigView, outcome: RunOutcome) -> Option<RunError> {
    match outcome {
        RunOutcome::SpawnFailed => Some(RunError::SpawnFailed),
        RunOutcome::Completed(result) => if !result.exit_success {
            Some(RunError::CommandFailed)
        } else if config.verbose && result.captured_stdout@.len() > 0 && !valid_utf8(
            result.captured_stdout@,
        ) {
            Some(RunError::InvalidOutput)
        } else {
            None
        },
    }
}

/// The elapsed times that the first `n` of `outcomes` report, in order.
pub open spec fn elapsed_times(outcomes: Seq<RunOutcome>, n: int) -> Seq<u64> {
    Seq::new(n as nat, |i: int| outcomes[i]->Completed_0.elapsed_nanos)
}

impl RunnerView {
    /// The configuration is valid and no more samples are held than runs were asked for.
    pub open spec fn valid(self) -> bool {
        self.config.valid() && self.samples.len() <= self.config.run_count
    }

    /// The state before the first invocation.
    pub open spec fn start(config: ConfigView) -> RunnerView {
        RunnerView { config, samples: Seq::empty(), failure: None }
    }

    /// The run is neither abandoned nor complete.
    pub open spec fn awaiting_run(self) -> bool {
        self.failure is None && self.samples.len() < self.config.run_count
    }

    /// What the caller has to do in this state: stop if the run is abandoned, invoke the
    /// command if samples are missing, and report otherwise.
    pub open spec fn next_action(self) -> ActionView {
        match self.failure {
            Some(error) => ActionView::Abort { error },
            None => if self.samples.len() < self.config.run_count {
                ActionView::Invoke {
                    command: self.config.command,
                    arguments: self.config.arguments,
                }
            } else {
                ActionView::Report { samples: self.samples }
            },
        }
    }

    /// The state after `outcome` has been reported. A runner that is not waiting for an
    /// outcome ignores it. Otherwise the elapsed time of a successful invocation joins
    /// the samples, and the run is abandoned if the invocation stops it.
    pub open spec fn after(self, outcome: RunOutcome) -> RunnerView {
        if !self.awaiting_run() {
            self
        } else {
            RunnerView {
                samples: if succeeded(outcome) {
                    self.samples.push(outcome->Completed_0.elapsed_nanos)
                } else {
                    self.samples
                },
                failure: stopping_error(self.config, outcome),
                ..self
            }
        }
    }

    /// What is to be shown when `outcome` is reported in this state. Only a successful
    /// invocation that the runner was waiting for shows anything: its number and elapsed
    /// time if `debug` is set, and its output as text if `verbose` is set and the output
    /// is not empty and is valid UTF-8.
    pub open spec fn notes(self, outcome: RunOutcome) -> NotesView {
        if self.awaiting_run() && succeeded(outcome) {
            let result = outcome->Completed_0;
            NotesView {
                timing: if self.config.debug {
                    Some(((self.samples.len() + 1) as u32, result.elapsed_nanos))
                } else {
                    None
                },
                echo: if self.config.verbose && result.captured_stdout@.len() > 0
                    && valid_utf8(result.captured_stdout@) {
                    Some(decode_utf8(result.captured_stdout@))
                } else {
                    None
                },
            }
        } else {
            NotesView { timing: None, echo: None }
        }
    }

    /// The state after each of `outcomes` has been reported in turn.
    pub open spec fn after_all(self, outcomes: Seq<RunOutcome>) -> RunnerView
        decreases outcomes.len(),
    {
        if outcomes.len() == 0 {
            self
        } else {
            self.after_all(outcomes.drop_last()).after(outcomes.last())
        }
    }
}

/// Reporting an outcome keeps a valid state valid and leaves the configuration alone.
pub proof fn lemma_after_keeps_valid(state: RunnerView, outcome: RunOutcome)
    requires
        state.valid(),
    ensures
        state.after(outcome).valid(),
        state.after(outcome).config == state.config,
{
}

/// Every state that a run passes through is valid, whatever is reported.
pub proof fn lemma_run_stays_valid(config: ConfigView, outcomes: Seq<RunOutcome>)
    requires
        config.valid(),
    ensures
        RunnerView::start(config).after_all(outcomes).valid(),
        RunnerView::start(config).after_all(outcomes).config == config,
    decreases outcomes.len(),
{
    if outcomes.len() > 0 {
        lemma_run_stays_valid(config, outcomes.drop_last());
        lemma_after_keeps_valid(
            RunnerView::start(config).after_all(outcomes.drop_last()),
            outcomes.last(),
        );
    }
}

/// A report is asked for exactly when no invocation stopped the run and as many samples
/// are held as runs were asked for; the samples to summarise are then never empty.
pub proof fn lemma_report_is_complete(state: RunnerView)
    requires
        state.valid(),
    ensures
        state.next_action() is Report <==> state.failure is None && state.samples.len()
            == state.config.run_count,
        state.next_action() is Report ==> state.next_action()->Report_samples.len() >= 1,
{
}

/// A run that is complete or abandoned stays as it is, whatever is reported to it: no
/// further invocation is asked for, and an abandoned run never reports.
pub proof fn lemma_settled_is_final(state: RunnerView, outcomes: Seq<RunOutcome>)
    requires
        !state.awaiting_run(),
    ensures
        state.after_all(outcomes) == state,
        !(state.next_action() is Invoke),
        state.failure is Some ==> state.next_action() is Abort,
    decreases outcomes.len(),
{
    if outcomes.len() > 0 {
        lemma_settled_is_final(state, outcomes.drop_last());
    }
}

/// Reporting two sequences of outcomes one after the other is reporting their
/// concatenation.
pub proof fn lemma_after_all_splits(
    state: RunnerView,
    first: Seq<RunOutcome>,
    second: Seq<RunOutcome>,
)
    ensures
        state.after_all(first + second) == state.after_all(first).after_all(second),
    decreases second.len(),
{
    if second.len() > 0 {
        lemma_after_all_splits(state, first, second.drop_last());
        assert((first + second).drop_last() =~= first + second.drop_last());
    }
}

/// As long as no invocation stops the run and no more have been reported than runs were
/// asked for, the samples are exactly the elapsed times reported, in order.
pub proof fn lemma_samples_follow_outcomes(
    config: ConfigView,
    outcomes: Seq<RunOutcome>,
    n: int,
)
    requires
        0 <= n <= outcomes.len(),
        n <= config.run_count,
        forall|i: int| 0 <= i < n ==> stopping_error(config, #[trigger] outcomes[i]) is None,
    ensures
        RunnerView::start(config).after_all(outcomes.take(n)) == (RunnerView {
            config,
            samples: elapsed_times(outcomes, n),
            failure: None,
        }),
    decreases n,
{
    if n == 0 {
        assert(elapsed_times(outcomes, 0) =~= Seq::<u64>::empty());
    } else {
        lemma_samples_follow_outcomes(config, outcomes, n - 1);
        assert(outcomes.take(n).drop_last() =~= outcomes.take(n - 1));
        assert(elapsed_times(outcomes, n) =~= elapsed_times(outcomes, n - 1).push(
            outcomes[n - 1]->Completed_0.elapsed_nanos,
        ));
    }
}

/// A run in which no invocation stops it ends with exactly as many samples as runs were
/// asked for, one per invocation and in the order reported, and then asks for the report.
pub proof fn lemma_successful_run_is_complete(config: ConfigView, outcomes: Seq<RunOutcome>)
    requires
        config.valid(),
        outcomes.len() == config.run_count,
        forall|i: int|
            0 <= i < outcomes.len() ==> stopping_error(config, #[trigger] outcomes[i]) is None,
    ensures
        ({
            let end = RunnerView::start(config).after_all(outcomes);
            &&& end.samples.len() == config.run_count
            &&& end.samples == elapsed_times(outcomes, outcomes.len() as int)
            &&& end.failure is None
            &&& end.next_action() == (ActionView::Report { samples: end.samples })
        }),
{
    lemma_samples_follow_outcomes(config, outcomes, outcomes.len() as int);
    assert(outcomes.take(outcomes.len() as int) =~= outcomes);
}

/// When invocation number `k + 1` is the first that stops the run, the run is abandoned
/// there with that invocation's error: whatever is reported afterwards, the next action
/// is to stop, never to invoke again or to report. The samples are those of the `k`
/// earlier invocations, and that of the stopping one if it had succeeded.
pub proof fn lemma_failed_run_is_abandoned(
    config: ConfigView,
    outcomes: Seq<RunOutcome>,
    k: int,
)
    requires
        config.valid(),
        0 <= k < outcomes.len(),
        k < config.run_count,
        forall|i: int| 0 <= i < k ==> stopping_error(config, #[trigger] outcomes[i]) is None,
        stopping_error(config, outcomes[k]) is Some,
    ensures
        ({
            let end = RunnerView::start(config).after_all(outcomes);
            let error = stopping_error(config, outcomes[k])->Some_0;
            &&& end.failure == Some(error)
            &&& end.next_action() == (ActionView::Abort { error })
            &&& end.samples == elapsed_times(
                outcomes,
                if succeeded(outcomes[k]) {
                    k + 1
                } else {
                    k
                },
            )
        }),
{
    let begin = RunnerView::start(config);
    let head = outcomes.take(k + 1);
    let tail = outcomes.skip(k + 1);
    lemma_samples_follow_outcomes(config, outcomes, k);
    assert(head.drop_last() =~= outcomes.take(k));
    assert(elapsed_times(outcomes, k + 1) =~= elapsed_times(outcomes, k).push(
        outcomes[k]->Completed_0.elapsed_nanos,
    ));
    lemma_settled_is_final(begin.after_all(head), tail);
    lemma_after_all_splits(begin, head, tail);
    assert(head + tail =~= outcomes);
}

/// If any invocation that the run asks for stops it, the run ends abandoned, whatever
/// else is reported: the last action is to stop, so no report is made, and no sample is
/// held of an invocation after the stopping one.
pub proof fn lemma_any_failure_abandons(config: ConfigView, outcomes: Seq<RunOutcome>, k: int)
    requires
        config.valid(),
        0 <= k < outcomes.len(),
        k < config.run_count,
        stopping_error(config, outcomes[k]) is Some,
    ensures
        ({
            let end = RunnerView::start(config).after_all(outcomes);
            &&& end.next_action() is Abort
            &&& end.samples.len() <= k + 1
            &&& !succeeded(outcomes[k]) ==> end.samples.len() <= k
        }),
    decreases k,
{
    if exists|i: int| 0 <= i < k && stopping_error(config, #[trigger] outcomes[i]) is Some {
        let i = choose|i: int|
            0 <= i < k && stopping_error(config, #[trigger] outcomes[i]) is Some;
        lemma_any_failure_abandons(config, outcomes, i);
    } else {
        lemma_failed_run_is_abandoned(config, outcomes, k);
    }
}

/// `String::from_utf8`: the text that `bytes` encode, and nothing exactly when they are
/// not well-formed UTF-8.
#[verifier::external_body]
fn decode_text(bytes: Vec<u8>) -> (text: Option<String>)
    ensures
        text is Some <==> valid_utf8(bytes@),
        text matches Some(decoded) ==> decoded@ == decode_utf8(bytes@),
{
    String::from_utf8(bytes).ok()
}

/// A benchmark run in progress.
#[derive(Debug)]
pub struct Runner {
    config: BenchmarkConfig,
    samples: Vec<u64>,
    failure: Option<RunError>,
}

impl View for Runner {
    type V = RunnerView;

    closed spec fn view(&self) -> RunnerView {
        RunnerView { config: self.config@, samples: self.samples@, failure: self.failure }
    }
}

impl Runner {
    /// Holds of every value of this type.
    #[verifier::type_invariant]
    pub open spec fn well_formed(self) -> bool {
        self@.valid()
    }

    /// Starts a run: nothing has been invoked yet.
    pub fn new(config: BenchmarkConfig) -> (runner: Runner)
        ensures
            runner@ == RunnerView::start(config@),
            runner@.valid(),
    {
        proof {
            use_type_invariant(&config);
        }
        Runner { config, samples: Vec::new(), failure: None }
    }

    /// Says what to do next: invoke the command again, report, or stop.
    pub fn next_action(&self) -> (action: Action<'_>)
        ensures
            action@ == self@.next_action(),
            self@.valid(),
    {
        proof {
            use_type_invariant(self);
        }
        match self.failure {
            Some(error) => Action::Abort { error },
            None => if self.samples.len() < self.config.run_count() as usize {
                Action::Invoke {
                    command: self.config.command(),
                    arguments: self.config.arguments(),
                }
            } else {
                Action::Report { samples: &self.samples }
            },
        }
    }

    /// Takes in the outcome of one invocation and says what is to be shown for it.
    pub fn record(&mut self, outcome: RunOutcome) -> (notes: RunNotes)
        ensures
            final(self)@ == old(self)@.after(outcome),
            notes@ == old(self)@.notes(outcome),
            final(self)@.valid(),
    {
        proof {
            use_type_invariant(&*self);
        }
        if self.failure.is_some() || self.samples.len() >= self.config.run_count() as usize {
            return RunNotes { timing: None, echo: None };
        }
        match outcome {
            RunOutcome::SpawnFailed => {
                self.failure = Some(RunError::SpawnFailed);
                RunNotes { timing: None, echo: None }
            },
            RunOutcome::Completed(result) => {
                if !result.exit_success {
                    self.failure = Some(RunError::CommandFailed);
                    return RunNotes { timing: None, echo: None };
                }
                let mut samples = Vec::new();
                std::mem::swap(&mut samples, &mut self.samples);
                samples.push(result.elapsed_nanos);
                let run_number = samples.len() as u32;
                self.samples = samples;
                let timing = if self.config.debug() {
                    Some((run_number, result.elapsed_nanos))
                } else {
                    None
                };
                let echo = if self.config.verbose() && result.captured_stdout.len() > 0 {
                    let decoded = decode_text(result.captured_stdout);
                    if decoded.is_none() {
                        self.failure = Some(RunError::InvalidOutput);
                    }
                    decoded
                } else {
                    None
                };
                RunNotes { timing, echo }
            },
        }
    }
}

} // verus!
