//! The application's start/stop phase machine.
//!
//! Booting → Running when start-up completes; Booting → Dead when a start-up
//! step fails; Running → Shutting when shutdown begins; Shutting → Dead when
//! it ends. A shutdown that finds the phase already Shutting or Dead does
//! nothing. The program's runtime performs the steps; this type decides.
use vstd::prelude::*;
use crate::peer::{pool_matches, PeerRegistry, PeerState};
use crate::text::{decimal_spec, push_char, push_decimal, push_str_chars};

verus! {

/// The phase of the application.
#[derive(Clone, Copy, Debug, PartialEq, Eq, Structural)]
pub enum Phase {
    /// Start-up in progress.
    Booting,
    /// Serving.
    Running,
    /// Shutdown in progress.
    Shutting,
    /// Shut down.
    Dead,
}

/// The order of phases: a phase never goes back to an earlier one.
pub open spec fn phase_rank(p: Phase) -> int {
    match p {
        Phase::Booting => 0,
        Phase::Running => 1,
        Phase::Shutting => 2,
        Phase::Dead => 3,
    }
}

/// Why start-up failed.
#[derive(Debug, Clone, PartialEq, Eq)]
pub enum StartupError {
    TracingInit(String),
    ConfigLoad(String),
    PortBind(String),
    ClipboardSpawn(String),
}

impl StartupError {
    /// The label that precedes the detail in the error's message.
    pub fn label(&self) -> (r: &'static str)
        ensures
            self is TracingInit ==> r@ == "tracing init failed"@,
            self is ConfigLoad ==> r@ == "config load failed"@,
            self is PortBind ==> r@ == "port bind failed"@,
            self is ClipboardSpawn ==> r@ == "clipboard thread spawn failed"@,
    {
        match self {
            StartupError::TracingInit(_) => "tracing init failed",
            StartupError::ConfigLoad(_) => "config load failed",
            StartupError::PortBind(_) => "port bind failed",
            StartupError::ClipboardSpawn(_) => "clipboard thread spawn failed",
        }
    }

    /// The detail carried by the error.
    pub fn detail(&self) -> (r: &String)
        ensures
            match self {
                StartupError::TracingInit(d) => r == d,
                StartupError::ConfigLoad(d) => r == d,
                StartupError::PortBind(d) => r == d,
                StartupError::ClipboardSpawn(d) => r == d,
            },
    {
        match self {
            StartupError::TracingInit(d) => d,
            StartupError::ConfigLoad(d) => d,
            StartupError::PortBind(d) => d,
            StartupError::ClipboardSpawn(d) => d,
        }
    }
}

/// The phase machine.
pub struct Lifecycle {
    phase: Phase,
}

impl Lifecycle {
    /// The current phase, in specifications.
    pub closed spec fn current(&self) -> Phase {
        self.phase
    }

    /// A new machine, Booting.
    pub fn new() -> (r: Self)
        ensures
            r.current() == Phase::Booting,
    {
        Lifecycle { phase: Phase::Booting }
    }

    /// The current phase.
    pub fn phase(&self) -> (r: Phase)
        ensures
            r == self.current(),
    {
        self.phase
    }

    /// Start-up completed: Booting → Running. In any other phase nothing
    /// changes and `false` is returned.
    pub fn mark_running(&mut self) -> (r: bool)
        ensures
            r == (old(self).current() == Phase::Booting),
            r ==> final(self).current() == Phase::Running,
            !r ==> final(self).current() == old(self).current(),
            phase_rank(final(self).current()) >= phase_rank(old(self).current()),
    {
        if self.phase == Phase::Booting {
            self.phase = Phase::Running;
            true
        } else {
            false
        }
    }

    /// A start-up step failed: the machine goes to Dead (from Booting).
    pub fn startup_failed(&mut self)
        ensures
            final(self).current() == Phase::Dead,
            phase_rank(final(self).current()) >= phase_rank(old(self).current()),
    {
        self.phase = Phase::Dead;
    }

    /// Shutdown begins. Returns `false`, changing nothing, when the machine is
    /// already Shutting or Dead (a repeated shutdown does nothing); otherwise
    /// the phase becomes Shutting and `true` tells the caller to run the steps.
    pub fn begin_shutdown(&mut self) -> (r: bool)
        ensures
            r == !(old(self).current() == Phase::Shutting || old(self).current() == Phase::Dead),
            r ==> final(self).current() == Phase::Shutting,
            !r ==> final(self).current() == old(self).current(),
            phase_rank(final(self).current()) >= phase_rank(old(self).current()),
    {
        if self.phase == Phase::Shutting || self.phase == Phase::Dead {
            false
        } else {
            self.phase = Phase::Shutting;
            true
        }
    }

    /// Shutdown finished: the machine is Dead.
    pub fn mark_dead(&mut self)
        ensures
            final(self).current() == Phase::Dead,
            phase_rank(final(self).current()) >= phase_rank(old(self).current()),
    {
        self.phase = Phase::Dead;
    }

    /// May a connection be force-rebuilt now? Not while shutting down.
    pub fn allows_rebuild(&self) -> (r: bool)
        ensures
            r == (self.current() != Phase::Shutting),
    {
        self.phase != Phase::Shutting
    }
}


/// The last step of a shutdown, once every worker has stopped: the registry
/// forgets every peer, both trust sets and every client (the keys are
/// wiped), and the machine is Dead.
pub fn finish_shutdown(lifecycle: &mut Lifecycle, registry: &mut PeerRegistry)
    requires
        old(registry).wf(),
    ensures
        final(registry).wf(),
        final(registry).peers() == Map::<Seq<char>, PeerState>::empty(),
        final(registry).approved_ids() == Set::<Seq<char>>::empty(),
        final(registry).banned_ids() == Set::<Seq<char>>::empty(),
        final(registry).pool() == Map::<Seq<char>, reqwest::Client>::empty(),
        pool_matches(*final(registry)),
        final(lifecycle).current() == Phase::Dead,
{
    registry.clear();
    lifecycle.mark_dead();
}

/// A line of the fatal-error log: `[<unix seconds>] FATAL: <message>` and a
/// newline.
pub open spec fn fatal_log_entry_spec(unix_secs: u64, message: Seq<char>) -> Seq<char> {
    seq!['['] + decimal_spec(unix_secs as nat) + "] FATAL: "@ + message + seq!['\n']
}

/// The line appended to the fatal-error log when start-up fails.
pub fn fatal_log_entry(unix_secs: u64, message: &str) -> (r: String)
    ensures
        r@ == fatal_log_entry_spec(unix_secs, message@),
{
    let mut out = String::new();
    push_char(&mut out, '[');
    push_decimal(&mut out, unix_secs);
    push_str_chars(&mut out, "] FATAL: ");
    push_str_chars(&mut out, message);
    push_char(&mut out, '\n');
    assert(out@ =~= fatal_log_entry_spec(unix_secs, message@));
    out
}

} // verus!
