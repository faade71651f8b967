//! The session monitor: the shared run state that start and stop commands
//! change, and the decisions of the polling loop, one event at a time.
//!
//! The loop's driver performs each command (reads the store, takes a process
//! snapshot, terminates processes, sleeps) and reports what came back as the
//! next event; every decision is made here.

use vstd::prelude::*;

use crate::enforce::{enforcement_plan, plan_enforcement, Enforcement};
use crate::records::{BlockRule, ProcessDescriptor, Session};
use crate::text::same_text;

verus! {

/// Seconds the loop sleeps between two cycles.
pub const POLL_INTERVAL_SECS: u64 = 2;

/// What a start request found.
#[derive(Clone, Copy, Debug, PartialEq, Eq, Structural)]
pub enum StartStatus {
    /// A loop was running already; nothing changed.
    AlreadyRunning,
    /// The state is now running under a new run number; one loop is to be spawned for it.
    Started,
}

/// The process-wide run state: whether a monitor loop should be running, and
/// the number of the latest run that was started. A loop goes on only while
/// the state is running under its own run number, so a loop left over from
/// an earlier run never carries on beside a newer one.
#[derive(Debug)]
pub struct MonitorState {
    running: bool,
    run: u64,
}

/// The run number that follows `run`.
pub open spec fn next_run(run: u64) -> u64 {
    if run == u64::MAX {
        0
    } else {
        (run + 1) as u64
    }
}

/// A start request on (running, run): the new (running, run) and the status.
pub open spec fn start_spec(running: bool, run: u64) -> (bool, u64, StartStatus) {
    if running {
        (running, run, StartStatus::AlreadyRunning)
    } else {
        (true, next_run(run), StartStatus::Started)
    }
}

/// A stop request on (running, run).
pub open spec fn stop_spec(running: bool, run: u64) -> (bool, u64) {
    (false, run)
}

/// The end of the loop of run `ticket`: it clears the state only if that run is still the latest.
pub open spec fn finish_spec(running: bool, run: u64, ticket: u64) -> (bool, u64) {
    if run == ticket {
        (false, run)
    } else {
        (running, run)
    }
}

/// The loop of run `ticket` may go on.
pub open spec fn owns_spec(running: bool, run: u64, ticket: u64) -> bool {
    running && run == ticket
}

impl MonitorState {
    pub closed spec fn running_spec(&self) -> bool {
        self.running
    }

    pub closed spec fn run_spec(&self) -> u64 {
        self.run
    }

    /// A stopped state, as at application start.
    pub fn new() -> (r: MonitorState)
        ensures
            !r.running_spec(),
            r.run_spec() == 0,
    {
        MonitorState { running: false, run: 0 }
    }

    /// Whether a loop should be running.
    pub fn is_running(&self) -> (r: bool)
        ensures
            r == self.running_spec(),
    {
        self.running
    }

    /// The number of the latest run started.
    pub fn current_run(&self) -> (r: u64)
        ensures
            r == self.run_spec(),
    {
        self.run
    }

    /// Start request: when running already, nothing changes and the answer is
    /// `AlreadyRunning`; otherwise the state becomes running under the next run
    /// number and the answer is `Started`.
    pub fn start(&mut self) -> (r: StartStatus)
        ensures
            (final(self).running_spec(), final(self).run_spec(), r) == start_spec(
                old(self).running_spec(),
                old(self).run_spec(),
            ),
    {
        if self.running {
            StartStatus::AlreadyRunning
        } else {
            self.running = true;
            self.run = if self.run == u64::MAX {
                0
            } else {
                self.run + 1
            };
            StartStatus::Started
        }
    }

    /// Stop request: the state is no longer running; always succeeds.
    pub fn stop(&mut self)
        ensures
            (final(self).running_spec(), final(self).run_spec()) == stop_spec(
                old(self).running_spec(),
                old(self).run_spec(),
            ),
    {
        self.running = false;
    }

    /// Whether the loop of run `ticket` may go on.
    pub fn owns(&self, ticket: u64) -> (r: bool)
        ensures
            r == owns_spec(self.running_spec(), self.run_spec(), ticket),
    {
        self.running && self.run == ticket
    }

    /// The loop of run `ticket` has ended: the state stops if that run is
    /// still the latest, and is left alone otherwise.
    pub fn finish(&mut self, ticket: u64)
        ensures
            (final(self).running_spec(), final(self).run_spec()) == finish_spec(
                old(self).running_spec(),
                old(self).run_spec(),
                ticket,
            ),
    {
        if self.run == ticket {
            self.running = false;
        }
    }
}

impl StartStatus {
    /// The reply to the caller of a start request.
    pub fn reply(&self) -> (r: String)
        ensures
            *self == StartStatus::AlreadyRunning ==> r@ == "Monitor already running"@,
            *self == StartStatus::Started ==> r@ == "Session monitor started"@,
    {
        match self {
            StartStatus::AlreadyRunning => String::from_str("Monitor already running"),
            StartStatus::Started => String::from_str("Session monitor started"),
        }
    }
}

/// The reply to the caller of a stop request.
pub fn stop_reply() -> (r: String)
    ensures
        r@ == "Session monitor stopped"@,
{
    String::from_str("Session monitor stopped")
}

/// Some session in the list has status "running".
pub open spec fn has_running_session(sessions: Seq<Session>) -> bool {
    exists|i: int| 0 <= i < sessions.len() && (#[trigger] sessions[i]).status@ == "running"@
}

/// Whether some session in the list has status "running".
pub fn any_session_running(sessions: &Vec<Session>) -> (r: bool)
    ensures
        r == has_running_session(sessions@),
{
    let mut i: usize = 0;
    while i < sessions.len()
        invariant
            i <= sessions.len(),
            forall|k: int| 0 <= k < i ==> (#[trigger] sessions@[k]).status@ != "running"@,
        decreases sessions.len() - i,
    {
        if same_text(sessions[i].status.as_str(), "running") {
            return true;
        }
        i = i + 1;
    }
    false
}

/// Where the loop stands: what it waits to hear about next.
#[derive(Clone, Copy, Debug, PartialEq, Eq, Structural)]
pub enum LoopPhase {
    /// At the top of an iteration: waits for the run state.
    AwaitFlag,
    /// Waits for the current sessions.
    AwaitSessions,
    /// Waits for the current block rules.
    AwaitRules,
    /// Waits for a process snapshot; the rules read this cycle are kept.
    AwaitSnapshot,
    /// The loop has ended.
    Halted,
}

/// What the driver reports back.
pub enum LoopEvent {
    /// Whether the run state still owns this loop.
    FlagRead(bool),
    /// The sessions, or the store's error.
    SessionsRead(Result<Vec<Session>, String>),
    /// The block rules, or the store's error.
    RulesRead(Result<Vec<BlockRule>, String>),
    /// The running processes (empty when the system could not be queried).
    SnapshotTaken(Vec<ProcessDescriptor>),
}

/// What the driver is to do next.
#[derive(Debug)]
pub enum LoopCommand {
    /// Look at the run state and report `FlagRead`.
    CheckFlag,
    /// Read the sessions and report `SessionsRead`.
    ReadSessions,
    /// Read the block rules and report `RulesRead`.
    ReadRules,
    /// Take a process snapshot and report `SnapshotTaken`.
    TakeSnapshot,
    /// Carry out these entries in order, sleep one poll interval, then report `FlagRead`.
    Enforce(Vec<Enforcement>),
    /// Sleep one poll interval without enforcing, then report `FlagRead`.
    Pause,
    /// End the loop and mark its run finished in the run state.
    Finish,
}

/// A command, with the entries of an `Enforce` as a sequence.
pub enum CommandView {
    CheckFlag,
    ReadSessions,
    ReadRules,
    TakeSnapshot,
    Enforce(Seq<Enforcement>),
    Pause,
    Finish,
}

impl View for LoopCommand {
    type V = CommandView;

    open spec fn view(&self) -> CommandView {
        match self {
            LoopCommand::CheckFlag => CommandView::CheckFlag,
            LoopCommand::ReadSessions => CommandView::ReadSessions,
            LoopCommand::ReadRules => CommandView::ReadRules,
            LoopCommand::TakeSnapshot => CommandView::TakeSnapshot,
            LoopCommand::Enforce(v) => CommandView::Enforce(v@),
            LoopCommand::Pause => CommandView::Pause,
            LoopCommand::Finish => CommandView::Finish,
        }
    }
}

/// The command that a phase waits on; what is repeated when an event does not fit.
pub open spec fn pending_command(phase: LoopPhase) -> CommandView {
    match phase {
        LoopPhase::AwaitFlag => CommandView::CheckFlag,
        LoopPhase::AwaitSessions => CommandView::ReadSessions,
        LoopPhase::AwaitRules => CommandView::ReadRules,
        LoopPhase::AwaitSnapshot => CommandView::TakeSnapshot,
        LoopPhase::Halted => CommandView::Finish,
    }
}

/// One step of the loop: from its phase and kept rules, on an event, the
/// next phase, the rules kept and the command.
///
/// A loop that no longer owns the run state ends. A failed session read ends
/// the loop, and so does a session list without a running session. A failed
/// rule read skips enforcement for this cycle only. A snapshot yields the
/// enforcement plan of the kept rules. An event that does not fit the phase
/// changes nothing and the pending command is repeated.
pub open spec fn loop_transition(
    phase: LoopPhase,
    rules: Seq<BlockRule>,
    event: LoopEvent,
) -> (LoopPhase, Seq<BlockRule>, CommandView) {
    match (phase, event) {
        (LoopPhase::AwaitFlag, LoopEvent::FlagRead(owned)) => if owned {
            (LoopPhase::AwaitSessions, rules, CommandView::ReadSessions)
        } else {
            (LoopPhase::Halted, rules, CommandView::Finish)
        },
        (LoopPhase::AwaitSessions, LoopEvent::SessionsRead(read)) => match read {
            Ok(sessions) => if has_running_session(sessions@) {
                (LoopPhase::AwaitRules, rules, CommandView::ReadRules)
            } else {
                (LoopPhase::Halted, rules, CommandView::Finish)
            },
            Err(_) => (LoopPhase::Halted, rules, CommandView::Finish),
        },
        (LoopPhase::AwaitRules, LoopEvent::RulesRead(read)) => match read {
            Ok(fresh) => (LoopPhase::AwaitSnapshot, fresh@, CommandView::TakeSnapshot),
            Err(_) => (LoopPhase::AwaitFlag, rules, CommandView::Pause),
        },
        (LoopPhase::AwaitSnapshot, LoopEvent::SnapshotTaken(procs)) => (
            LoopPhase::AwaitFlag,
            rules,
            CommandView::Enforce(enforcement_plan(procs@, rules)),
        ),
        _ => (phase, rules, pending_command(phase)),
    }
}

/// The decisions of one monitor loop.
pub struct MonitorLoop {
    phase: LoopPhase,
    rules: Vec<BlockRule>,
}

impl MonitorLoop {
    pub closed spec fn phase_spec(&self) -> LoopPhase {
        self.phase
    }

    pub closed spec fn rules_spec(&self) -> Seq<BlockRule> {
        self.rules@
    }

    /// A loop at the top of its first iteration, with no rules kept; the
    /// driver's first command is `CheckFlag`.
    pub fn new() -> (r: MonitorLoop)
        ensures
            r.phase_spec() == LoopPhase::AwaitFlag,
            r.rules_spec() == Seq::<BlockRule>::empty(),
    {
        MonitorLoop { phase: LoopPhase::AwaitFlag, rules: Vec::new() }
    }

    /// Where the loop stands.
    pub fn phase(&self) -> (r: LoopPhase)
        ensures
            r == self.phase_spec(),
    {
        self.phase
    }

    /// The rules read in the current cycle.
    pub fn rules(&self) -> (r: &Vec<BlockRule>)
        ensures
            r@ == self.rules_spec(),
    {
        &self.rules
    }

    /// Takes in what the driver reports and says what to do next, as
    /// `loop_transition` describes.
    pub fn advance(&mut self, event: LoopEvent) -> (r: LoopCommand)
        ensures
            (final(self).phase_spec(), final(self).rules_spec(), r@) == loop_transition(
                old(self).phase_spec(),
                old(self).rules_spec(),
                event,
            ),
    {
        match (self.phase, event) {
            (LoopPhase::AwaitFlag, LoopEvent::FlagRead(owned)) => {
                if owned {
                    self.phase = LoopPhase::AwaitSessions;
                    LoopCommand::ReadSessions
                } else {
                    self.phase = LoopPhase::Halted;
                    LoopCommand::Finish
                }
            },
            (LoopPhase::AwaitSessions, LoopEvent::SessionsRead(read)) => match read {
                Ok(sessions) => {
                    if any_session_running(&sessions) {
                        self.phase = LoopPhase::AwaitRules;
                        LoopCommand::ReadRules
                    } else {
                        self.phase = LoopPhase::Halted;
                        LoopCommand::Finish
                    }
                },
                Err(_) => {
                    self.phase = LoopPhase::Halted;
                    LoopCommand::Finish
                },
            },
            (LoopPhase::AwaitRules, LoopEvent::RulesRead(read)) => match read {
                Ok(fresh) => {
                    self.rules = fresh;
                    self.phase = LoopPhase::AwaitSnapshot;
                    LoopCommand::TakeSnapshot
                },
                Err(_) => {
                    self.phase = LoopPhase::AwaitFlag;
                    LoopCommand::Pause
                },
            },
            (LoopPhase::AwaitSnapshot, LoopEvent::SnapshotTaken(procs)) => {
                let plan = plan_enforcement(&procs, &self.rules);
                self.phase = LoopPhase::AwaitFlag;
                LoopCommand::Enforce(plan)
            },
            (phase, _) => match phase {
                LoopPhase::AwaitFlag => LoopCommand::CheckFlag,
                LoopPhase::AwaitSessions => LoopCommand::ReadSessions,
                LoopPhase::AwaitRules => LoopCommand::ReadRules,
                LoopPhase::AwaitSnapshot => LoopCommand::TakeSnapshot,
                LoopPhase::Halted => LoopCommand::Finish,
            },
        }
    }
}

/// Starting twice in a row starts one run: the second request finds the
/// state running, answers `AlreadyRunning` and changes nothing, so only the
/// first can spawn a loop, and only the loop of that run may go on.
pub proof fn lemma_start_twice_starts_once(running: bool, run: u64)
    ensures
        ({
            let (running1, run1, status1) = start_spec(running, run);
            let (running2, run2, status2) = start_spec(running1, run1);
            &&& running1
            &&& status2 == StartStatus::AlreadyRunning
            &&& running2 == running1
            &&& run2 == run1
            &&& forall|ticket: u64| #[trigger]
                owns_spec(running2, run2, ticket) ==> ticket == run1
        }),
{
}

/// Stopping is idempotent: on a stopped state it changes nothing, and
/// stopping twice leaves what stopping once leaves.
pub proof fn lemma_stop_is_idempotent(running: bool, run: u64)
    ensures
        !running ==> stop_spec(running, run) == (running, run),
        ({
            let (running1, run1) = stop_spec(running, run);
            stop_spec(running1, run1) == (running1, run1)
        }),
{
}

/// With no running session, a loop that has just been started ends within
/// its first cycle: it reads the sessions, then finishes, before any rule
/// read, process snapshot or sleep.
pub proof fn lemma_idle_sessions_end_the_loop(rules: Seq<BlockRule>, sessions: Vec<Session>)
    requires
        !has_running_session(sessions@),
    ensures
        ({
            let (phase1, rules1, command1) = loop_transition(
                LoopPhase::AwaitFlag,
                rules,
                LoopEvent::FlagRead(true),
            );
            let (phase2, rules2, command2) = loop_transition(
                phase1,
                rules1,
                LoopEvent::SessionsRead(Ok(sessions)),
            );
            &&& command1 == CommandView::ReadSessions
            &&& phase2 == LoopPhase::Halted
            &&& command2 == CommandView::Finish
        }),
{
}

/// A failed session read ends the loop, and leaves the run state ready for
/// a new start: once the loop of the latest run has finished, a start
/// request is accepted and begins a fresh run.
pub proof fn lemma_failed_read_allows_restart(
    rules: Seq<BlockRule>,
    error: String,
    running: bool,
    run: u64,
)
    ensures
        ({
            let (phase1, rules1, command1) = loop_transition(
                LoopPhase::AwaitSessions,
                rules,
                LoopEvent::SessionsRead(Err(error)),
            );
            let (running1, run1) = finish_spec(running, run, run);
            let (running2, run2, status2) = start_spec(running1, run1);
            &&& phase1 == LoopPhase::Halted
            &&& command1 == CommandView::Finish
            &&& !running1
            &&& status2 == StartStatus::Started
            &&& running2
            &&& run2 == next_run(run)
            &&& run2 != run
        }),
{
}

} // verus!
