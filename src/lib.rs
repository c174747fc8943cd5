//! Frees network ports by finding the processes that hold them and asking
//! the operating system to terminate those processes.
//!
//! The library decides; the host program performs. Parsing the requested
//! ports, matching them against a socket table, choosing the termination
//! command for the host platform and driving one session from input to exit
//! are all verified here. Reading the terminal, taking a snapshot of the
//! socket table, running the termination command and sleeping before exit
//! are left to the caller.

mod ports;
mod sockets;
mod session;
mod terminate;

pub use ports::{
    digits_value, is_digit, is_space, parse_port, parse_ports, port_value, ports_of_line,
    ports_of_words, unsigned_part, words, words_after,
};
pub use sockets::{
    Protocol, ResolveError, SocketRecord, is_match, owns_among, resolve,
    resolve_is_idempotent, resolve_lists_exact_owners, resolves_to, shared_owner_is_listed_once,
    targets_of, udp_owners_are_never_listed,
};
pub use terminate::{
    CommandReport, KillCommand, KillFailure, KillStrategy, TerminationOutcome, args_of, decimal,
    digit_char, kill_command, outcome_spec, pid_text, program_of, select_strategy, strategy_for,
    termination_outcome,
};
pub use session::{
    Action, Decision, EXIT_CODE, Event, Notice, Phase, Session, each_target_gets_one_command,
    kill_step,
};
