//! Choosing how to terminate a process on the host platform, the command
//! line that asks for it, and what the command's completion means.
//!
//! A termination counts as done when the command completes and reports
//! success; the process is not observed afterwards, so "done" means that the
//! operating system accepted the request, not that the process is gone.

use vstd::prelude::*;

verus! {

/// How processes are terminated on the host, chosen once per session.
#[derive(Clone, Copy, Debug, PartialEq, Eq, Structural)]
pub enum KillStrategy {
    /// A forced terminate-by-identifier request (`taskkill /F /PID`).
    Windows,
    /// An unconditional kill signal (`kill -9`).
    Linux,
}

/// The strategy for a host operating system, named as Rust names it
/// (`"windows"`, `"linux"`); any other host has none.
pub open spec fn strategy_for(os: Seq<char>) -> Option<KillStrategy> {
    if os == seq!['w', 'i', 'n', 'd', 'o', 'w', 's'] {
        Some(KillStrategy::Windows)
    } else if os == seq!['l', 'i', 'n', 'u', 'x'] {
        Some(KillStrategy::Linux)
    } else {
        None
    }
}

/// The character of a decimal digit.
pub open spec fn digit_char(d: nat) -> char {
    seq!['0', '1', '2', '3', '4', '5', '6', '7', '8', '9'][d as int]
}

/// The decimal representation of `n`, without leading zeros.
pub open spec fn decimal(n: nat) -> Seq<char>
    decreases n,
{
    if n < 10 {
        seq![digit_char(n)]
    } else {
        decimal(n / 10).push(digit_char(n % 10))
    }
}

/// The program that carries out a strategy.
pub open spec fn program_of(strategy: KillStrategy) -> Seq<char> {
    match strategy {
        KillStrategy::Windows => seq!['t', 'a', 's', 'k', 'k', 'i', 'l', 'l'],
        KillStrategy::Linux => seq!['k', 'i', 'l', 'l'],
    }
}

/// The arguments that ask for `pid` to be terminated under a strategy.
pub open spec fn args_of(strategy: KillStrategy, pid: u32) -> Seq<Seq<char>> {
    match strategy {
        KillStrategy::Windows => seq![seq!['/', 'F'], seq!['/', 'P', 'I', 'D'], decimal(pid as nat)],
        KillStrategy::Linux => seq![seq!['-', '9'], decimal(pid as nat)],
    }
}

/// A command line: the program and its arguments.
#[derive(Clone, Debug)]
pub struct KillCommand {
    pub program: String,
    pub args: Vec<String>,
}

impl KillCommand {
    pub open spec fn args_view(&self) -> Seq<Seq<char>> {
        self.args@.map_values(|a: String| a@)
    }
}

fn same_text(a: &str, b: &str) -> (r: bool)
    ensures
        r == (a@ == b@),
{
    let n = a.unicode_len();
    if n != b.unicode_len() {
        return false;
    }
    let mut i: usize = 0;
    while i < n
        invariant
            n == a@.len(),
            n == b@.len(),
            0 <= i <= n,
            forall|k: int| 0 <= k < i ==> a@[k] == b@[k],
        decreases n - i,
    {
        if a.get_char(i) != b.get_char(i) {
            return false;
        }
        i += 1;
    }
    assert(a@ =~= b@);
    true
}

/// Chooses the termination strategy for a host operating system, as named
/// by Rust's `std::env::consts::OS`.
pub fn select_strategy(os: &str) -> (r: Option<KillStrategy>)
    ensures
        r == strategy_for(os@),
{
    proof {
        reveal_strlit("windows");
        reveal_strlit("linux");
    }
    if same_text(os, "windows") {
        assert("windows"@ =~= seq!['w', 'i', 'n', 'd', 'o', 'w', 's']);
        Some(KillStrategy::Windows)
    } else if same_text(os, "linux") {
        assert("linux"@ =~= seq!['l', 'i', 'n', 'u', 'x']);
        assert(os@ != seq!['w', 'i', 'n', 'd', 'o', 'w', 's']);
        Some(KillStrategy::Linux)
    } else {
        assert("windows"@ =~= seq!['w', 'i', 'n', 'd', 'o', 'w', 's']);
        assert("linux"@ =~= seq!['l', 'i', 'n', 'u', 'x']);
        None
    }
}

fn digit_text(d: u32) -> (r: &'static str)
    requires
        d < 10,
    ensures
        r@ == seq![digit_char(d as nat)],
{
    proof {
        reveal_strlit("0");
        reveal_strlit("1");
        reveal_strlit("2");
        reveal_strlit("3");
        reveal_strlit("4");
        reveal_strlit("5");
        reveal_strlit("6");
        reveal_strlit("7");
        reveal_strlit("8");
        reveal_strlit("9");
    }
    let r = match d {
        0 => "0",
        1 => "1",
        2 => "2",
        3 => "3",
        4 => "4",
        5 => "5",
        6 => "6",
        7 => "7",
        8 => "8",
        _ => "9",
    };
    assert(r@ =~= seq![digit_char(d as nat)]);
    r
}

fn append_decimal(s: &mut String, n: u32)
    ensures
        final(s)@ == old(s)@ + decimal(n as nat),
    decreases n,
{
    if n >= 10 {
        append_decimal(s, n / 10);
    }
    s.append(digit_text(n % 10));
    if n >= 10 {
        assert(decimal(n as nat) == decimal((n / 10) as nat).push(digit_char((n % 10) as nat)));
    }
    assert(final(s)@ =~= old(s)@ + decimal(n as nat));
}

/// The decimal text of a process identifier.
pub fn pid_text(pid: u32) -> (r: String)
    ensures
        r@ == decimal(pid as nat),
{
    let mut s = String::new();
    append_decimal(&mut s, pid);
    assert(s@ =~= decimal(pid as nat));
    s
}

/// The command line that asks the host to terminate `pid`:
/// `taskkill /F /PID <pid>` under the Windows strategy and `kill -9 <pid>`
/// under the Linux one.
pub fn kill_command(strategy: KillStrategy, pid: u32) -> (c: KillCommand)
    ensures
        c.program@ == program_of(strategy),
        c.args_view() == args_of(strategy, pid),
{
    let mut args: Vec<String> = Vec::new();
    match strategy {
        KillStrategy::Windows => {
            proof {
                reveal_strlit("taskkill");
                reveal_strlit("/F");
                reveal_strlit("/PID");
            }
            args.push(String::from_str("/F"));
            args.push(String::from_str("/PID"));
            args.push(pid_text(pid));
            let c = KillCommand { program: String::from_str("taskkill"), args };
            assert(c.program@ =~= program_of(strategy));
            assert(c.args_view()[0] =~= seq!['/', 'F']);
            assert(c.args_view()[1] =~= seq!['/', 'P', 'I', 'D']);
            assert(c.args_view() =~= args_of(strategy, pid));
            c
        },
        KillStrategy::Linux => {
            proof {
                reveal_strlit("kill");
                reveal_strlit("-9");
            }
            args.push(String::from_str("-9"));
            args.push(pid_text(pid));
            let c = KillCommand { program: String::from_str("kill"), args };
            assert(c.program@ =~= program_of(strategy));
            assert(c.args_view()[0] =~= seq!['-', '9']);
            assert(c.args_view() =~= args_of(strategy, pid));
            c
        },
    }
}

/// How a termination command ended, as the host reported it.
#[derive(Clone, Debug)]
pub enum CommandReport {
    /// The command could not be started (program missing, no permission).
    NotStarted(String),
    /// The command ran to completion; `success` is whether it exited with a
    /// success status, and `diagnostic` is what it wrote about a failure.
    Finished { success: bool, diagnostic: String },
}

/// Why a termination request failed.
#[derive(Clone, Debug)]
pub enum KillFailure {
    /// The command could not be started.
    NotStarted(String),
    /// The host refused the request (the process is gone, or not ours).
    Refused(String),
}

/// The outcome of one termination request.
#[derive(Clone, Debug)]
pub enum TerminationOutcome {
    /// The host accepted the request.
    Requested,
    Failed(KillFailure),
}

/// What a command report means: success only for a command that ran to
/// completion with a success status.
pub open spec fn outcome_spec(report: CommandReport) -> TerminationOutcome {
    match report {
        CommandReport::NotStarted(e) => TerminationOutcome::Failed(KillFailure::NotStarted(e)),
        CommandReport::Finished { success, diagnostic } => if success {
            TerminationOutcome::Requested
        } else {
            TerminationOutcome::Failed(KillFailure::Refused(diagnostic))
        },
    }
}

/// Reads a command report as the outcome of a termination request.
pub fn termination_outcome(report: CommandReport) -> (r: TerminationOutcome)
    ensures
        r == outcome_spec(report),
{
    match report {
        CommandReport::NotStarted(e) => TerminationOutcome::Failed(KillFailure::NotStarted(e)),
        CommandReport::Finished { success, diagnostic } => if success {
            TerminationOutcome::Requested
        } else {
            TerminationOutcome::Failed(KillFailure::Refused(diagnostic))
        },
    }
}

} // verus!
