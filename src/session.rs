//! One pass of freeing ports, as a state machine.
//!
//! The session decides and the host performs: each call of [`Session::step`]
//! takes what happened (an event) and returns what to report and what to do
//! next. A pass runs
//! `AwaitingInput -> Resolving -> Terminating -> Draining -> Exited`; every
//! path, the failing ones included, ends in `Draining` and then `Exited`
//! with the same success exit code, whatever became of the terminations.
//! Every resolved process is tried in turn: a failure is reported and the
//! next one is tried all the same.

use vstd::prelude::*;
use crate::ports::{parse_ports, ports_of_line};
use crate::sockets::{ResolveError, SocketRecord, resolve, resolves_to, targets_of};
use crate::terminate::{
    CommandReport, KillCommand, KillFailure, KillStrategy, TerminationOutcome, args_of, kill_command,
    outcome_spec, program_of, select_strategy, strategy_for, termination_outcome,
};

verus! {

/// The exit code of every session, however its terminations went.
pub const EXIT_CODE: i32 = 0;

#[derive(Clone, Copy, Debug, PartialEq, Eq, Structural)]
pub enum Phase {
    AwaitingInput,
    Resolving,
    Terminating,
    Draining,
    Exited,
}

/// What the host hands back to the session.
#[derive(Debug)]
pub enum Event {
    /// The line of requested ports was read.
    LineRead(String),
    /// The input could not be read; the text names the cause.
    ReadFailed(String),
    /// A fresh snapshot of the socket table, or why it could not be read.
    TableRead(Result<Vec<SocketRecord>, ResolveError>),
    /// The termination command for the current target ended.
    KillDone(CommandReport),
    /// The delay before exit has passed.
    Drained,
}

/// What the session reports to the user.
#[derive(Clone, Debug)]
pub enum Notice {
    ReadFailed(String),
    NoValidPorts,
    EnumerationFailed(ResolveError),
    NoProcessFound,
    /// The processes about to be terminated.
    Targets(Vec<u32>),
    UnsupportedPlatform,
    /// The host accepted the request to terminate this process.
    Killed(u32),
    KillFailed(u32, KillFailure),
}

/// What the host is to do next.
#[derive(Clone, Debug)]
pub enum Action {
    /// Read a fresh snapshot of the socket table, IPv4 and IPv6, TCP and
    /// UDP, and hand it back; the session resolves the requested ports
    /// against it.
    ReadSocketTable,
    /// Run this command, which terminates the process `pid`, and hand back
    /// how it ended. No timeout applies: the host waits for the command.
    Kill { pid: u32, command: KillCommand },
    /// Report that the session is ending, wait the fixed delay, then hand
    /// back `Drained`.
    Drain,
    /// Exit the process with this code.
    Exit(i32),
    /// The event does not belong to the current phase and changed nothing.
    Ignore,
}

/// The session's answer to one event.
#[derive(Clone, Debug)]
pub struct Decision {
    pub notices: Vec<Notice>,
    pub action: Action,
}

/// The state of one pass.
#[derive(Clone, Debug)]
pub struct Session {
    pub phase: Phase,
    /// How to terminate processes on this host; `None` on a host that has no
    /// supported way.
    pub strategy: Option<KillStrategy>,
    /// The requested ports, once read.
    pub ports: Vec<u16>,
    /// The resolved processes, in the order in which they are tried.
    pub targets: Vec<u32>,
    /// Index in `targets` of the process whose termination is under way.
    pub next: usize,
}

impl Session {
    /// A termination is under way: there is a strategy and a current target.
    pub open spec fn kill_ready(&self) -> bool {
        &&& self.strategy is Some
        &&& self.next < self.targets.len()
    }

    /// The session's fields agree with its phase; the targets never repeat.
    pub open spec fn wf(&self) -> bool {
        &&& self.targets@.no_duplicates()
        &&& self.phase == Phase::Terminating ==> self.kill_ready()
    }

    /// The action that terminates the target at `i` under the session's strategy.
    pub open spec fn kills_target(&self, action: Action, i: int) -> bool {
        &&& self.strategy is Some
        &&& 0 <= i < self.targets.len()
        &&& action matches Action::Kill { pid, command } && pid == self.targets@[i]
            && command.program@ == program_of(self.strategy->Some_0)
            && command.args_view() == args_of(self.strategy->Some_0, pid)
    }

    /// A new session on the host operating system `os`, as Rust's
    /// `std::env::consts::OS` names it. It awaits the line of ports; the
    /// termination strategy is chosen here, once.
    pub fn new(os: &str) -> (s: Session)
        ensures
            s.phase == Phase::AwaitingInput,
            s.strategy == strategy_for(os@),
            s.ports@.len() == 0,
            s.targets@.len() == 0,
            s.next == 0,
            s.wf(),
    {
        let s = Session {
            phase: Phase::AwaitingInput,
            strategy: select_strategy(os),
            ports: Vec::new(),
            targets: Vec::new(),
            next: 0,
        };
        assert(s.targets@ =~= Seq::<u32>::empty());
        s
    }

    fn kill_target(&self, i: usize) -> (a: Action)
        requires
            self.strategy is Some,
            i < self.targets.len(),
        ensures
            self.kills_target(a, i as int),
    {
        let pid = self.targets[i];
        Action::Kill { pid, command: kill_command(self.strategy.unwrap(), pid) }
    }

    /// Moves the session on by one event.
    pub fn step(&mut self, event: Event) -> (d: Decision)
        ensures
            final(self).strategy == old(self).strategy,
            old(self).wf() ==> final(self).wf(),
            // The line is read: without a port the resolver is not invoked.
            old(self).phase == Phase::AwaitingInput && event is LineRead ==> {
                let ports = ports_of_line(event->LineRead_0@);
                if ports.len() == 0 {
                    &&& d.notices@.len() == 1
                    &&& d.notices@[0] is NoValidPorts
                    &&& d.action is Drain
                    &&& final(self).phase == Phase::Draining
                } else {
                    &&& d.notices@.len() == 0
                    &&& d.action is ReadSocketTable
                    &&& final(self).ports@ == ports
                    &&& final(self).phase == Phase::Resolving
                }
            },
            old(self).phase == Phase::AwaitingInput && event is ReadFailed ==> {
                &&& d.notices@ == seq![Notice::ReadFailed(event->ReadFailed_0)]
                &&& d.action is Drain
                &&& final(self).phase == Phase::Draining
            },
            event matches Event::TableRead(Err(e)) ==> (old(self).phase == Phase::Resolving ==> {
                &&& d.notices@ == seq![Notice::EnumerationFailed(e)]
                &&& d.action is Drain
                &&& final(self).phase == Phase::Draining
            }),
            // The targets are the owners of a TCP socket on a requested port, each once.
            event matches Event::TableRead(Ok(table)) ==> (old(self).phase == Phase::Resolving ==> {
                let owners = targets_of(old(self).ports@, table@);
                if owners.is_empty() {
                    &&& d.notices@.len() == 1
                    &&& d.notices@[0] is NoProcessFound
                    &&& d.action is Drain
                    &&& final(self).phase == Phase::Draining
                } else {
                    &&& d.notices@.len() >= 1
                    &&& d.notices@[0] matches Notice::Targets(t) && resolves_to(
                        old(self).ports@,
                        table@,
                        t@,
                    )
                    &&& if old(self).strategy is None {
                        // An unsupported host is reported before any termination.
                        &&& d.notices@.len() == 2
                        &&& d.notices@[1] is UnsupportedPlatform
                        &&& d.action is Drain
                        &&& final(self).phase == Phase::Draining
                    } else {
                        &&& d.notices@.len() == 1
                        &&& final(self).phase == Phase::Terminating
                        &&& d.notices@[0] matches Notice::Targets(t) && final(self).targets@
                            == t@
                        &&& final(self).next == 0
                        &&& final(self).kills_target(d.action, 0)
                    }
                }
            }),
            // Each target is reported, and the next one is tried whatever the outcome.
            old(self).phase == Phase::Terminating && old(self).kill_ready() && event is KillDone ==> {
                let pid = old(self).targets@[old(self).next as int];
                &&& d.notices@.len() == 1
                &&& match outcome_spec(event->KillDone_0) {
                    TerminationOutcome::Requested => d.notices@[0] == Notice::Killed(pid),
                    TerminationOutcome::Failed(why) => d.notices@[0] == Notice::KillFailed(pid, why),
                }
                &&& final(self).targets@ == old(self).targets@
                &&& if old(self).next + 1 < old(self).targets.len() {
                    &&& final(self).phase == Phase::Terminating
                    &&& final(self).next == old(self).next + 1
                    &&& final(self).kills_target(d.action, old(self).next + 1)
                } else {
                    &&& d.action is Drain
                    &&& final(self).phase == Phase::Draining
                }
            },
            event is KillDone ==> kill_step(*old(self), *final(self), d.action),
            // Every session ends with the same exit code.
            old(self).phase == Phase::Draining && event is Drained ==> {
                &&& d.notices@.len() == 0
                &&& d.action == Action::Exit(EXIT_CODE)
                &&& final(self).phase == Phase::Exited
            },
            // Any other event leaves the session as it was.
            !(old(self).phase == Phase::AwaitingInput && (event is LineRead || event is ReadFailed))
                && !(old(self).phase == Phase::Resolving && event is TableRead) && !(old(self).phase
                == Phase::Terminating && old(self).kill_ready() && event is KillDone) && !(old(self).phase
                == Phase::Draining && event is Drained) ==> {
                &&& d.notices@.len() == 0
                &&& d.action is Ignore
                &&& *final(self) == *old(self)
            },
    {
        let mut notices: Vec<Notice> = Vec::new();
        match (self.phase, event) {
            (Phase::AwaitingInput, Event::LineRead(line)) => {
                let ports = parse_ports(line.as_str());
                if ports.len() == 0 {
                    notices.push(Notice::NoValidPorts);
                    self.phase = Phase::Draining;
                    Decision { notices, action: Action::Drain }
                } else {
                    self.phase = Phase::Resolving;
                    self.ports = ports;
                    Decision { notices, action: Action::ReadSocketTable }
                }
            },
            (Phase::AwaitingInput, Event::ReadFailed(e)) => {
                notices.push(Notice::ReadFailed(e));
                self.phase = Phase::Draining;
                Decision { notices, action: Action::Drain }
            },
            (Phase::Resolving, Event::TableRead(Err(e))) => {
                notices.push(Notice::EnumerationFailed(e));
                self.phase = Phase::Draining;
                Decision { notices, action: Action::Drain }
            },
            (Phase::Resolving, Event::TableRead(Ok(table))) => {
                let pids = resolve(&self.ports, &table);
                if pids.len() == 0 {
                    assert(pids@.to_set() =~= Set::<u32>::empty());
                    notices.push(Notice::NoProcessFound);
                    self.phase = Phase::Draining;
                    Decision { notices, action: Action::Drain }
                } else {
                    assert(pids@.to_set().contains(pids@[0]));
                    let shown = pids.clone();
                    assert(shown@ =~= pids@);
                    notices.push(Notice::Targets(shown));
                    if self.strategy.is_none() {
                        notices.push(Notice::UnsupportedPlatform);
                        self.phase = Phase::Draining;
                        Decision { notices, action: Action::Drain }
                    } else {
                        self.targets = pids;
                        self.next = 0;
                        self.phase = Phase::Terminating;
                        let action = self.kill_target(0);
                        Decision { notices, action }
                    }
                }
            },
            (Phase::Terminating, Event::KillDone(report)) => {
                if self.strategy.is_none() || self.next >= self.targets.len() {
                    return Decision { notices, action: Action::Ignore };
                }
                let pid = self.targets[self.next];
                match termination_outcome(report) {
                    TerminationOutcome::Requested => notices.push(Notice::Killed(pid)),
                    TerminationOutcome::Failed(why) => notices.push(Notice::KillFailed(pid, why)),
                }
                if self.next + 1 < self.targets.len() {
                    self.next = self.next + 1;
                    let action = self.kill_target(self.next);
                    Decision { notices, action }
                } else {
                    self.phase = Phase::Draining;
                    Decision { notices, action: Action::Drain }
                }
            },
            (Phase::Draining, Event::Drained) => {
                self.phase = Phase::Exited;
                Decision { notices, action: Action::Exit(EXIT_CODE) }
            },
            _ => Decision { notices, action: Action::Ignore },
        }
    }
}


/// One step of the terminating phase as `Session::step` takes it on the end
/// of a termination command: the targets and strategy stay, and the action
/// terminates the next target, or drains after the last. Outside a
/// termination under way the event is ignored.
pub open spec fn kill_step(before: Session, after: Session, action: Action) -> bool {
    if before.phase == Phase::Terminating && before.kill_ready() {
        &&& after.targets@ == before.targets@
        &&& after.strategy == before.strategy
        &&& if before.next + 1 < before.targets.len() {
            &&& after.phase == Phase::Terminating
            &&& after.next == before.next + 1
            &&& after.kills_target(action, before.next + 1)
        } else {
            &&& action is Drain
            &&& after.phase == Phase::Draining
        }
    } else {
        &&& action is Ignore
        &&& after == before
    }
}

/// Over a whole terminating phase, the `k`-th command issued terminates the
/// `k`-th target with the host's strategy (`taskkill /F /PID <pid>` on
/// Windows, `kill -9 <pid>` on Linux), so each target gets exactly one
/// command, in turn, and no other command is issued before the session
/// drains.
pub proof fn each_target_gets_one_command(states: Seq<Session>, actions: Seq<Action>)
    requires
        states.len() == actions.len(),
        states.len() >= 1,
        states[0].phase == Phase::Terminating,
        states[0].next == 0,
        states[0].kill_ready(),
        states[0].kills_target(actions[0], 0),
        forall|k: int| 0 <= k < states.len() - 1 ==> kill_step(#[trigger] states[k], states[k + 1], actions[k + 1]),
    ensures
        forall|k: int|
            0 <= k < states.len() && #[trigger] states[k].phase == Phase::Terminating ==> {
                &&& states[k].kill_ready()
                &&& states[k].next == k
                &&& states[k].targets@ == states[0].targets@
                &&& states[k].strategy == states[0].strategy
                &&& states[0].kills_target(actions[k], k)
            },
    decreases states.len(),
{
    let n = states.len();
    if n > 1 {
        each_target_gets_one_command(states.drop_last(), actions.drop_last());
        let k = n - 2;
        assert(kill_step(states[k], states[k + 1], actions[k + 1]));
        if states[k + 1].phase == Phase::Terminating {
            assert(states.drop_last()[k] == states[k]);
            assert(actions.drop_last()[k] == actions[k]);

        }
        assert forall|j: int|
            0 <= j < n && #[trigger] states[j].phase == Phase::Terminating implies {
                &&& states[j].kill_ready()
                &&& states[j].next == j
                &&& states[j].targets@ == states[0].targets@
                &&& states[j].strategy == states[0].strategy
                &&& states[0].kills_target(actions[j], j)
            } by {
            if j < n - 1 {
                assert(states.drop_last()[j] == states[j]);
                assert(actions.drop_last()[j] == actions[j]);
            }
        }
    }
}

} // verus!
