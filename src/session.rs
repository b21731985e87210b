//! The open / dispatch / close lifecycle of one run, as a state machine.

use vstd::prelude::*;

use crate::outcome::{command_result, command_result_spec, outcome_code, Failure};

verus! {

/// The one thing a run does once the shell is open.
pub enum Command {
    /// Run a command line and capture its output.
    Run { text: String },
    /// Copy a local file to the remote host.
    Upload { local: String, remote: String },
    /// Copy a remote file to the local host.
    Download { remote: String, local: String },
}

/// Where a run stands.
pub enum Phase {
    /// The client is being built and the shell opened.
    Opening,
    /// The shell is open; the command is under way.
    Dispatching,
    /// The command was started; its output is being fetched.
    AwaitingOutput,
    /// The command's output is being shown; the result is known.
    Reporting(Result<(), Failure>),
    /// The shell is being closed; the dispatch result is known.
    Closing(Result<(), Failure>),
    /// The run is over; its outcome went out with the last action.
    Done,
}

/// What the outside world reports back after an action.
pub enum Event {
    /// The shell is open.
    Opened,
    /// The command was started under this identifier.
    CommandStarted(String),
    /// The command's captured output and exit code.
    Output { stdout: String, stderr: String, exit_code: i32 },
    /// The output was written out.
    Printed,
    /// The upload or download completed.
    Transferred,
    /// The shell is closed.
    Closed,
    /// The last action failed.
    Failed(Failure),
}

/// What the outside world is asked to do next.
pub enum Action {
    /// Build the client and open a shell.
    Open,
    /// Start this command line in the shell.
    Run(String),
    /// Fetch the output of the command with this identifier.
    FetchOutput(String),
    /// Upload `local` to `remote`.
    Upload { local: String, remote: String },
    /// Download `remote` to `local`.
    Download { remote: String, local: String },
    /// Write `stdout` to standard output and `stderr` to standard error, verbatim.
    Print { stdout: String, stderr: String },
    /// Close the shell.
    Close,
    /// Stop with this outcome.
    Finish(Result<(), Failure>),
    /// Nothing to do: the event did not fit the phase.
    Wait,
}

/// The action that starts a command once the shell is open.
pub open spec fn dispatch_action(command: Command) -> Action {
    match command {
        Command::Run { text } => Action::Run(text),
        Command::Upload { local, remote } => Action::Upload { local, remote },
        Command::Download { remote, local } => Action::Download { remote, local },
    }
}

/// One transition: the next phase and action for an event in a phase.
/// Every failure after the shell opened leads to closing it; a failing close
/// replaces the dispatch result.
pub open spec fn next(command: Command, phase: Phase, event: Event) -> (Phase, Action) {
    match (phase, event) {
        (Phase::Opening, Event::Opened) => (Phase::Dispatching, dispatch_action(command)),
        (Phase::Opening, Event::Failed(f)) => (Phase::Done, Action::Finish(Err(f))),
        (Phase::Dispatching, Event::CommandStarted(id)) => {
            if command is Run {
                (Phase::AwaitingOutput, Action::FetchOutput(id))
            } else {
                (Phase::Dispatching, Action::Wait)
            }
        },
        (Phase::Dispatching, Event::Transferred) => {
            if command is Run {
                (Phase::Dispatching, Action::Wait)
            } else {
                (Phase::Closing(Ok(())), Action::Close)
            }
        },
        (Phase::Dispatching, Event::Failed(f)) => (Phase::Closing(Err(f)), Action::Close),
        (Phase::AwaitingOutput, Event::Output { stdout, stderr, exit_code }) => (
            Phase::Reporting(command_result_spec(exit_code)),
            Action::Print { stdout, stderr },
        ),
        (Phase::AwaitingOutput, Event::Failed(f)) => (Phase::Closing(Err(f)), Action::Close),
        (Phase::Reporting(r), Event::Printed) => (Phase::Closing(r), Action::Close),
        (Phase::Reporting(_), Event::Failed(f)) => (Phase::Closing(Err(f)), Action::Close),
        (Phase::Closing(r), Event::Closed) => (Phase::Done, Action::Finish(r)),
        (Phase::Closing(_), Event::Failed(f)) => (Phase::Done, Action::Finish(Err(f))),
        (p, _) => (p, Action::Wait),
    }
}

/// One run: the command, fixed for the run, and where the run stands.
pub struct Session {
    pub command: Command,
    pub phase: Phase,
}

impl Session {
    /// A run of `command`, and its first action: open the shell.
    pub fn start(command: Command) -> (r: (Session, Action))
        ensures
            r.0.command == command,
            r.0.phase is Opening,
            r.1 is Open,
    {
        (Session { command, phase: Phase::Opening }, Action::Open)
    }

    /// Takes the event that answers the last action and returns the session
    /// in its next phase together with the next action.
    pub fn step(self, event: Event) -> (r: (Session, Action))
        ensures
            r.0.command == self.command,
            (r.0.phase, r.1) == next(self.command, self.phase, event),
    {
        let Session { command, phase } = self;
        let (phase, action) = match (phase, event) {
            (Phase::Opening, Event::Opened) => {
                let a = match &command {
                    Command::Run { text } => Action::Run(text.clone()),
                    Command::Upload { local, remote } => Action::Upload {
                        local: local.clone(),
                        remote: remote.clone(),
                    },
                    Command::Download { remote, local } => Action::Download {
                        remote: remote.clone(),
                        local: local.clone(),
                    },
                };
                (Phase::Dispatching, a)
            },
            (Phase::Opening, Event::Failed(f)) => (Phase::Done, Action::Finish(Err(f))),
            (Phase::Dispatching, Event::CommandStarted(id)) => {
                if let Command::Run { .. } = &command {
                    (Phase::AwaitingOutput, Action::FetchOutput(id))
                } else {
                    (Phase::Dispatching, Action::Wait)
                }
            },
            (Phase::Dispatching, Event::Transferred) => {
                if let Command::Run { .. } = &command {
                    (Phase::Dispatching, Action::Wait)
                } else {
                    (Phase::Closing(Ok(())), Action::Close)
                }
            },
            (Phase::Dispatching, Event::Failed(f)) => (Phase::Closing(Err(f)), Action::Close),
            (Phase::AwaitingOutput, Event::Output { stdout, stderr, exit_code }) => (
                Phase::Reporting(command_result(exit_code)),
                Action::Print { stdout, stderr },
            ),
            (Phase::AwaitingOutput, Event::Failed(f)) => (Phase::Closing(Err(f)), Action::Close),
            (Phase::Reporting(r), Event::Printed) => (Phase::Closing(r), Action::Close),
            (Phase::Reporting(_), Event::Failed(f)) => (Phase::Closing(Err(f)), Action::Close),
            (Phase::Closing(r), Event::Closed) => (Phase::Done, Action::Finish(r)),
            (Phase::Closing(_), Event::Failed(f)) => (
                Phase::Done,
                Action::Finish(Err(f)),
            ),
            (p, _) => (p, Action::Wait),
        };
        (Session { command, phase }, action)
    }
}


/// The shell is open and has not been asked to close.
pub open spec fn shell_open(phase: Phase) -> bool {
    phase is Dispatching || phase is AwaitingOutput || phase is Reporting
}

/// The phase reached and the actions asked for when `events` arrive one by
/// one, starting in `phase`.
pub open spec fn run(command: Command, phase: Phase, events: Seq<Event>) -> (Phase, Seq<Action>)
    decreases events.len(),
{
    if events.len() == 0 {
        (phase, Seq::empty())
    } else {
        let (p1, a) = next(command, phase, events[0]);
        let (pf, rest) = run(command, p1, events.skip(1));
        (pf, seq![a] + rest)
    }
}

/// How many of `actions` close the shell.
pub open spec fn closes(actions: Seq<Action>) -> nat
    decreases actions.len(),
{
    if actions.len() == 0 {
        0
    } else {
        (if actions[0] is Close { 1nat } else { 0nat }) + closes(actions.skip(1))
    }
}

proof fn lemma_closes_cons(a: Action, rest: Seq<Action>)
    ensures
        closes(seq![a] + rest) == (if a is Close { 1nat } else { 0nat }) + closes(rest),
{
    assert((seq![a] + rest).skip(1) =~= rest);
}

proof fn lemma_no_close_after_close(command: Command, phase: Phase, events: Seq<Event>)
    requires
        phase is Closing || phase is Done,
    ensures
        closes(run(command, phase, events).1) == 0,
        run(command, phase, events).0 is Closing || run(command, phase, events).0 is Done,
    decreases events.len(),
{
    if events.len() > 0 {
        let (p1, a) = next(command, phase, events[0]);
        lemma_no_close_after_close(command, p1, events.skip(1));
        lemma_closes_cons(a, run(command, p1, events.skip(1)).1);
    }
}

/// From any phase in which the shell is open, whatever events follow, the
/// shell is asked to close at most once, and a run that finishes has asked
/// exactly once; dispatch failures included.
pub proof fn lemma_open_shell_closed_once(command: Command, phase: Phase, events: Seq<Event>)
    requires
        shell_open(phase),
    ensures
        closes(run(command, phase, events).1) <= 1,
        run(command, phase, events).0 is Done ==> closes(run(command, phase, events).1) == 1,
        closes(run(command, phase, events).1) == (if shell_open(run(command, phase, events).0) {
            0nat
        } else {
            1nat
        }),
    decreases events.len(),
{
    if events.len() > 0 {
        let (p1, a) = next(command, phase, events[0]);
        let rest = run(command, p1, events.skip(1));
        lemma_closes_cons(a, rest.1);
        if shell_open(p1) {
            lemma_open_shell_closed_once(command, p1, events.skip(1));
        } else {
            lemma_no_close_after_close(command, p1, events.skip(1));
        }
    }
}

/// Once the shell has opened, a run that finishes has asked to close it
/// exactly once, and no run asks twice; a failed open asks for no close.
pub proof fn lemma_opened_session_closed_once(command: Command, events: Seq<Event>)
    ensures
        closes(run(command, Phase::Opening, events).1) <= 1,
        events.len() > 0 && events[0] is Opened && run(command, Phase::Opening, events).0 is Done
            ==> closes(run(command, Phase::Opening, events).1) == 1,
        events.len() > 0 && events[0] is Failed ==> closes(run(command, Phase::Opening, events).1)
            == 0,
{
    if events.len() > 0 {
        let (p1, a) = next(command, Phase::Opening, events[0]);
        let rest = run(command, p1, events.skip(1));
        lemma_closes_cons(a, rest.1);
        if shell_open(p1) {
            lemma_open_shell_closed_once(command, p1, events.skip(1));
        } else if p1 is Done {
            lemma_no_close_after_close(command, p1, events.skip(1));
        } else {
            lemma_opening_stays(command, events.skip(1));
        }
    }
}

proof fn lemma_opening_stays(command: Command, events: Seq<Event>)
    ensures
        closes(run(command, Phase::Opening, events).1) <= 1,
    decreases events.len(),
{
    if events.len() > 0 {
        let (p1, a) = next(command, Phase::Opening, events[0]);
        let rest = run(command, p1, events.skip(1));
        lemma_closes_cons(a, rest.1);
        if shell_open(p1) {
            lemma_open_shell_closed_once(command, p1, events.skip(1));
        } else if p1 is Done {
            lemma_no_close_after_close(command, p1, events.skip(1));
        } else {
            lemma_opening_stays(command, events.skip(1));
        }
    }
}


/// A command's captured output is handed out for printing verbatim, empty or
/// not, whatever its exit code; when the shell then closes cleanly the run
/// finishes with exit code 0 exactly when the remote code was 0, else 3.
pub proof fn lemma_output_shown(command: Command, stdout: String, stderr: String, code: i32)
    ensures
        ({
            let events = seq![Event::Output { stdout, stderr, exit_code: code }, Event::Printed, Event::Closed];
            let (pf, actions) = run(command, Phase::AwaitingOutput, events);
            &&& actions.len() == 3
            &&& actions[0] == (Action::Print { stdout, stderr })
            &&& actions[1] is Close
            &&& pf is Done
            &&& actions[2] matches Action::Finish(outcome) && outcome_code(outcome) == (if code == 0 {
                0i32
            } else {
                3i32
            })
        }),
{
    let events = seq![Event::Output { stdout, stderr, exit_code: code }, Event::Printed, Event::Closed];
    assert(events.skip(1) =~= seq![Event::Printed, Event::Closed]);
    assert(events.skip(1).skip(1) =~= seq![Event::Closed]);
    assert(events.skip(1).skip(1).skip(1) =~= Seq::<Event>::empty());
    let r = command_result_spec(code);
    let a3 = run(command, Phase::Done, Seq::empty());
    let a2 = run(command, Phase::Closing(r), seq![Event::Closed]);
    assert(a2.1 =~= seq![Action::Finish(r)]);
    let a1 = run(command, Phase::Reporting(r), seq![Event::Printed, Event::Closed]);
    assert(a1.1 =~= seq![Action::Close, Action::Finish(r)]);
    let a0 = run(command, Phase::AwaitingOutput, events);
    assert(a0.1 =~= seq![Action::Print { stdout, stderr }, Action::Close, Action::Finish(r)]);
}

} // verus!
