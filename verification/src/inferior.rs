//! The inferior controller: one traced child process, the classification of
//! its state changes, and the walk over its chain of stack frames.

use crate::text::{decimal, hex, push_decimal, push_hex, push_unsigned};
use nix::sys::ptrace;
use nix::sys::signal::{kill, Signal};
use nix::sys::wait::{waitpid, WaitPidFlag, WaitStatus};
use nix::unistd::Pid;
use std::collections::HashSet;
use std::convert::TryFrom;
use vstd::prelude::*;
use vstd::string::StringExecFns;

verus! {

/// The error type of the `nix` crate, carried through unopened.
#[verifier::external_type_specification]
#[verifier::external_body]
pub struct ExNixError(nix::Error);

/// The option flags of `nix::sys::wait::waitpid`, carried through unopened.
#[verifier::external_type_specification]
#[verifier::external_body]
pub struct ExWaitPidFlag(WaitPidFlag);

/// The state of an inferior after a wait.
#[derive(Clone, Copy, Debug, PartialEq, Eq, Structural)]
pub enum Status {
    /// The inferior stopped. Holds the number of the signal that stopped it
    /// and the instruction pointer it is stopped at.
    Stopped(i32, usize),
    /// The inferior exited normally. Holds the exit code.
    Exited(i32),
    /// The inferior was killed by a signal. Holds the number of that signal.
    Signaled(i32),
}

/// A state change of a child process as `waitpid` reports it, in plain
/// values: signals by their numbers, the process id left out.
#[derive(Clone, Copy, Debug, PartialEq, Eq, Structural)]
pub enum WaitEvent {
    /// Normal exit, with the exit code.
    Exited(i32),
    /// Death by a signal, with the signal's number.
    Signaled(i32),
    /// Stop by a signal, with the signal's number.
    Stopped(i32),
    /// Stop by a ptrace event, with the signal's number and the event.
    PtraceEvent(i32, i32),
    /// Stop at a system call.
    PtraceSyscall,
    /// Resumption after a stop.
    Continued,
    /// No state change to report.
    StillAlive,
}

impl WaitEvent {
    /// The signal numbers that the event holds are those of signals.
    pub open spec fn signals_known(self) -> bool {
        match self {
            WaitEvent::Signaled(signal) => 0 < signal < 32,
            WaitEvent::Stopped(signal) => 0 < signal < 32,
            WaitEvent::PtraceEvent(signal, _) => 0 < signal < 32,
            _ => true,
        }
    }
}

/// Why an operation on an inferior failed.
#[derive(Clone, Debug, PartialEq, Eq)]
pub enum TraceError {
    /// A trace or wait call failed; holds the operating system's description.
    Os(String),
    /// The wait reported a state change that is neither a stop, an exit nor
    /// a death by signal.
    UnexpectedStatus,
}

/// The two registers that the controller reads of a stopped inferior.
#[derive(Clone, Copy, Debug, PartialEq, Eq, Structural)]
pub struct Registers {
    /// The instruction pointer.
    pub rip: u64,
    /// The frame base pointer.
    pub rbp: u64,
}

/// The name under which `nix` shows the signal with number `signum`.
pub uninterp spec fn signal_name(signum: i32) -> Seq<char>;

/// How a signal is shown: by its name where the number is that of a signal,
/// by the number itself otherwise.
pub open spec fn signal_text(signum: i32) -> Seq<char> {
    if 0 < signum < 32 {
        signal_name(signum)
    } else {
        decimal(signum as int)
    }
}

impl Status {
    /// The signal number that the status holds, if any, is that of a signal.
    pub open spec fn signal_known(self) -> bool {
        match self {
            Status::Stopped(signal, _) => 0 < signal < 32,
            Status::Exited(_) => true,
            Status::Signaled(signal) => 0 < signal < 32,
        }
    }

    /// Terminal statuses: the process no longer exists.
    pub open spec fn terminal(self) -> bool {
        !(self is Stopped)
    }

    /// Whether the process no longer exists after this status.
    pub fn is_terminal(&self) -> (b: bool)
        ensures
            b == self.terminal(),
    {
        match self {
            Status::Stopped(_, _) => false,
            _ => true,
        }
    }

    /// The line that reports this status to the operator.
    pub open spec fn line(self) -> Seq<char> {
        match self {
            Status::Stopped(signal, address) => "stopped, signal "@ + signal_text(signal)
                + ", at address "@ + hex(address as nat),
            Status::Exited(code) => "exited with code "@ + decimal(code as int),
            Status::Signaled(signal) => "killed by signal "@ + signal_text(signal),
        }
    }

    /// Renders the status as the line that reports it.
    pub fn render(&self) -> (s: String)
        ensures
            s@ == self.line(),
    {
        match *self {
            Status::Stopped(signal, address) => {
                let mut s = String::from_str("stopped, signal ");
                push_signal(&mut s, signal);
                s.append(", at address ");
                push_hex(&mut s, address as u64);
                s
            },
            Status::Exited(code) => {
                let mut s = String::from_str("exited with code ");
                push_decimal(&mut s, code as i64);
                s
            },
            Status::Signaled(signal) => {
                let mut s = String::from_str("killed by signal ");
                push_signal(&mut s, signal);
                s
            },
        }
    }
}

/// What a state change means for the controller, given the instruction
/// pointer read after a stop: a stop, an exit and a death by signal become
/// the status of the same shape and keep their values; anything else is
/// refused.
pub open spec fn classified(event: WaitEvent, rip: u64) -> Result<Status, TraceError> {
    match event {
        WaitEvent::Exited(code) => Ok(Status::Exited(code)),
        WaitEvent::Signaled(signal) => Ok(Status::Signaled(signal)),
        WaitEvent::Stopped(signal) => Ok(Status::Stopped(signal, rip as usize)),
        _ => Err(TraceError::UnexpectedStatus),
    }
}

/// Classifies a state change; `rip` is read only for a stop.
pub fn classify(event: WaitEvent, rip: u64) -> (r: Result<Status, TraceError>)
    ensures
        r == classified(event, rip),
{
    match event {
        WaitEvent::Exited(code) => Ok(Status::Exited(code)),
        WaitEvent::Signaled(signal) => Ok(Status::Signaled(signal)),
        WaitEvent::Stopped(signal) => Ok(Status::Stopped(signal, rip as usize)),
        _ => Err(TraceError::UnexpectedStatus),
    }
}

/// Appends to `out` how the signal with number `signum` is shown.
pub fn push_signal(out: &mut String, signum: i32)
    ensures
        final(out)@ == old(out)@ + signal_text(signum),
{
    match signal_label(signum) {
        Some(name) => out.append(name.as_str()),
        None => push_decimal(out, signum as i64),
    }
}

/// `Signal::try_from` of `nix`, then the `Debug` rendering of the signal: the
/// conversion succeeds exactly for the numbers 1 to 31, and the rendering is
/// the signal's name.
#[verifier::external_body]
fn signal_label(signum: i32) -> (label: Option<String>)
    ensures
        label is Some <==> 0 < signum < 32,
        label matches Some(name) ==> name@ == signal_name(signum),
{
    match Signal::try_from(signum) {
        Ok(signal) => Some(format!("{:?}", signal)),
        Err(_) => None,
    }
}

/// The `Display` rendering of a `nix` error.
#[verifier::external_body]
fn describe(error: &nix::Error) -> String {
    format!("{}", error)
}

/// The `waitpid` flag `WSTOPPED` of `nix`.
#[verifier::external_body]
fn stopped_children() -> WaitPidFlag {
    WaitPidFlag::WSTOPPED
}

/// `nix::sys::wait::waitpid` on one process: blocks until that child changes
/// state, and hands the change out in plain values. A signal in it has gone
/// through `Signal::try_from`, so its number lies between 1 and 31.
#[verifier::external_body]
fn sys_waitpid(pid: i32, options: Option<WaitPidFlag>) -> (r: Result<WaitEvent, nix::Error>)
    requires
        pid > 0,
    ensures
        r matches Ok(event) ==> event.signals_known(),
{
    match waitpid(Pid::from_raw(pid), options) {
        Ok(WaitStatus::Exited(_, code)) => Ok(WaitEvent::Exited(code)),
        Ok(WaitStatus::Signaled(_, signal, _)) => Ok(WaitEvent::Signaled(signal as i32)),
        Ok(WaitStatus::Stopped(_, signal)) => Ok(WaitEvent::Stopped(signal as i32)),
        Ok(WaitStatus::PtraceEvent(_, signal, event)) => Ok(WaitEvent::PtraceEvent(signal as i32, event)),
        Ok(WaitStatus::PtraceSyscall(_)) => Ok(WaitEvent::PtraceSyscall),
        Ok(WaitStatus::Continued(_)) => Ok(WaitEvent::Continued),
        Ok(WaitStatus::StillAlive) => Ok(WaitEvent::StillAlive),
        Err(error) => Err(error),
    }
}

/// `nix::sys::ptrace::getregs`: the registers of a stopped tracee, of which
/// the instruction pointer and the frame base pointer are kept.
#[verifier::external_body]
fn sys_getregs(pid: i32) -> Result<Registers, nix::Error>
    requires
        pid > 0,
{
    match ptrace::getregs(Pid::from_raw(pid)) {
        Ok(regs) => Ok(Registers { rip: regs.rip, rbp: regs.rbp }),
        Err(error) => Err(error),
    }
}

/// `nix::sys::ptrace::read`: the word of a stopped tracee's memory at `addr`.
#[verifier::external_body]
fn sys_peek(pid: i32, addr: u64) -> Result<u64, nix::Error>
    requires
        pid > 0,
{
    match ptrace::read(Pid::from_raw(pid), addr as ptrace::AddressType) {
        Ok(word) => Ok(word as u64),
        Err(error) => Err(error),
    }
}

/// `nix::sys::ptrace::cont` without a signal: lets a stopped tracee run on.
#[verifier::external_body]
fn sys_cont(pid: i32) -> Result<(), nix::Error>
    requires
        pid > 0,
{
    ptrace::cont(Pid::from_raw(pid), None)
}

/// `nix::sys::signal::kill` with `SIGKILL`.
#[verifier::external_body]
fn sys_kill(pid: i32) -> Result<(), nix::Error>
    requires
        pid > 0,
{
    kill(Pid::from_raw(pid), Signal::SIGKILL)
}

/// One traced child process. The value is the only handle on the process:
/// whoever owns it may resume it, wait for it, read its stack and end it.
#[derive(Debug)]
pub struct Inferior {
    pid: i32,
}

impl Inferior {
    #[verifier::type_invariant]
    spec fn has_process(self) -> bool {
        self.pid > 0
    }

    /// The process identifier of the inferior.
    pub closed spec fn id(self) -> int {
        self.pid as int
    }

    /// A first observation that lets a launch stand: the child was seen, and
    /// it was seen stopped.
    pub open spec fn first_stop(first: Result<Status, TraceError>) -> bool {
        first matches Ok(status) && status is Stopped
    }

    /// Decides on a launch from the first status observed of the child with
    /// process identifier `pid`: the child becomes an inferior if and only if
    /// that status is a stop.
    pub fn adopt(pid: i32, first: &Result<Status, TraceError>) -> (r: Option<Inferior>)
        ensures
            r is Some <==> pid > 0 && Self::first_stop(*first),
            r matches Some(inferior) ==> inferior.id() == pid,
    {
        if pid <= 0 {
            return None;
        }
        match first {
            Ok(Status::Stopped(_, _)) => Some(Inferior { pid }),
            _ => None,
        }
    }

    /// Takes over a child that was spawned with tracing enabled: waits for its
    /// first state change and keeps the child if that is a stop. A child that
    /// is not kept is ended.
    pub fn new(pid: i32) -> (r: Option<Inferior>)
        ensures
            pid <= 0 ==> r is None,
            r matches Some(inferior) ==> inferior.id() == pid,
    {
        if pid <= 0 {
            return None;
        }
        let child = Inferior { pid };
        let first = child.wait(Some(stopped_children()));
        let adopted = Self::adopt(pid, &first);
        if adopted.is_none() {
            child.teardown();
        }
        adopted
    }

    /// Returns the pid of this inferior.
    pub fn pid(&self) -> (pid: i32)
        ensures
            pid == self.id(),
            pid > 0,
    {
        proof {
            use_type_invariant(self);
        }
        self.pid
    }

    /// Waits for the inferior's next state change and classifies it; after a
    /// stop, reads the instruction pointer. An error of the operating system
    /// comes back with its description.
    pub fn wait(&self, options: Option<WaitPidFlag>) -> (r: Result<Status, TraceError>)
        ensures
            r matches Ok(status) ==> status.signal_known(),
    {
        let pid = self.pid();
        match sys_waitpid(pid, options) {
            Err(error) => Err(TraceError::Os(describe(&error))),
            Ok(event) => match event {
                WaitEvent::Stopped(_) => match sys_getregs(pid) {
                    Err(error) => Err(TraceError::Os(describe(&error))),
                    Ok(regs) => classify(event, regs.rip),
                },
                _ => classify(event, 0),
            },
        }
    }

    /// Lets the stopped inferior run on, with no signal delivered, and waits
    /// for its next state change.
    pub fn continues(&self) -> (r: Result<Status, TraceError>)
        ensures
            r matches Ok(status) ==> status.signal_known(),
    {
        let pid = self.pid();
        match sys_cont(pid) {
            Err(error) => Err(TraceError::Os(describe(&error))),
            Ok(()) => self.wait(None),
        }
    }

    /// Walks the stack of the stopped inferior and renders one line for each
    /// frame, innermost first, with what `debug_data` resolves of the
    /// frame's address. The walk has no fixed number of frames: it ends at
    /// the first link that cannot be read, or where the chain of frame bases
    /// comes back to one that it has been at. Fails only where the registers
    /// cannot be read.
    pub fn print_backtrace<D: Fn(u64) -> Symbol>(&self, debug_data: D) -> (r: Result<
        Vec<String>,
        TraceError,
    >)
        requires
            forall|address: u64| call_requires(debug_data, (address,)),
        ensures
            r matches Ok(lines) ==> lines@.len() >= 1 && forall|i: int|
                #![trigger lines@[i]]
                0 <= i < lines@.len() ==> shows_some_frame(debug_data, i as nat, lines@[i]@),
            r matches Err(error) ==> error is Os,
    {
        let pid = self.pid();
        match sys_getregs(pid) {
            Err(error) => Err(TraceError::Os(describe(&error))),
            Ok(regs) => {
                let read_word = |addr: u64| -> (got: Option<u64>)
                    {
                        match sys_peek(pid, addr) {
                            Ok(word) => Some(word),
                            Err(_) => None,
                        }
                    };
                let frames = walk_stack(regs, read_word, usize::MAX);
                let lines = render_frames(&frames, debug_data);
                assert forall|i: int| #![trigger lines@[i]] 0 <= i < lines@.len() implies shows_some_frame(
                    debug_data,
                    i as nat,
                    lines@[i]@,
                ) by {
                    assert(shows_frame(debug_data, i as nat, frames@[i], lines@[i]@));
                }
                Ok(lines)
            },
        }
    }

    /// Ends the inferior: asks for its termination and, where the request
    /// was accepted, reaps it. Returns whether the request was accepted; a
    /// refusal means that the process was gone already.
    pub fn teardown(self) -> (killed: bool) {
        let pid = self.pid();
        match sys_kill(pid) {
            Ok(()) => {
                let _ = self.wait(None);
                true
            },
            Err(_) => false,
        }
    }
}

/// What the resolver of debug symbols knows of one address: the name of the
/// function that holds it and its source line, each where there is a match.
#[derive(Clone, Debug, PartialEq, Eq)]
pub struct Symbol {
    /// The function's name.
    pub function: Option<String>,
    /// The source line, as `file:line`.
    pub line: Option<String>,
}

/// What a read of the word at `addr` gives in a memory whose readable words
/// are those of `mem`.
pub open spec fn word_at(mem: Map<u64, u64>, addr: int) -> Option<u64> {
    if 0 <= addr <= u64::MAX && mem.contains_key(addr as u64) {
        Some(mem[addr as u64])
    } else {
        None
    }
}

/// The return addresses found by following the chain of saved frame base
/// pointers from `bp`, innermost caller first: the word at the frame base is
/// the caller's frame base, the word eight bytes above it the return address.
/// The chain ends at the first link of which either word cannot be read, at
/// a frame base that the walk has been at before (those are `seen`), and
/// after `budget` links at the latest.
pub open spec fn callers(mem: Map<u64, u64>, bp: u64, seen: Set<u64>, budget: nat) -> Seq<u64>
    decreases budget,
{
    if budget == 0 || seen.contains(bp) {
        Seq::empty()
    } else {
        match (word_at(mem, bp as int), word_at(mem, bp + 8)) {
            (Some(saved_bp), Some(return_address)) => seq![return_address] + callers(
                mem,
                saved_bp,
                seen.insert(bp),
                (budget - 1) as nat,
            ),
            _ => Seq::empty(),
        }
    }
}

/// The addresses of a backtrace: the current instruction pointer, then the
/// return addresses of up to `budget` callers.
pub open spec fn backtrace(mem: Map<u64, u64>, regs: Registers, budget: nat) -> Seq<u64> {
    seq![regs.rip] + callers(mem, regs.rbp, Set::empty(), budget)
}

/// The frame base that the walk from `bp` has reached after `links` links.
pub open spec fn frame_base(mem: Map<u64, u64>, bp: u64, links: nat) -> u64
    decreases links,
{
    if links == 0 {
        bp
    } else {
        match word_at(mem, bp as int) {
            Some(saved_bp) => frame_base(mem, saved_bp, (links - 1) as nat),
            None => bp,
        }
    }
}

/// A backtrace starts at the current instruction pointer and holds at most
/// `budget` frames more, whatever the memory holds.
pub proof fn backtrace_is_bounded(mem: Map<u64, u64>, regs: Registers, budget: nat)
    ensures
        1 <= backtrace(mem, regs, budget).len() <= budget + 1,
        backtrace(mem, regs, budget)[0] == regs.rip,
{
    callers_are_bounded(mem, regs.rbp, Set::empty(), budget);
}

/// The walk follows at most `budget` links.
pub proof fn callers_are_bounded(mem: Map<u64, u64>, bp: u64, seen: Set<u64>, budget: nat)
    ensures
        callers(mem, bp, seen, budget).len() <= budget,
    decreases budget,
{
    if budget > 0 && !seen.contains(bp) {
        match (word_at(mem, bp as int), word_at(mem, bp + 8)) {
            (Some(saved_bp), Some(_)) => callers_are_bounded(
                mem,
                saved_bp,
                seen.insert(bp),
                (budget - 1) as nat,
            ),
            _ => {},
        }
    }
}

/// A link of which either word cannot be read ends the walk: no frame
/// follows it.
pub proof fn unreadable_link_ends_walk(mem: Map<u64, u64>, bp: u64, seen: Set<u64>, budget: nat)
    requires
        word_at(mem, bp as int) is None || word_at(mem, bp + 8) is None,
    ensures
        callers(mem, bp, seen, budget) == Seq::<u64>::empty(),
{
}

/// A frame base that the walk has been at before ends the walk: a chain
/// that runs in a circle is followed once around and no further.
pub proof fn seen_frame_base_ends_walk(mem: Map<u64, u64>, bp: u64, seen: Set<u64>, budget: nat)
    requires
        seen.contains(bp),
    ensures
        callers(mem, bp, seen, budget) == Seq::<u64>::empty(),
{
}

/// Frames come in call order, innermost first, none left out: the caller at
/// position `k` is the return address stored eight bytes above the frame
/// base that `k` links lead to, and the walk has not been at that frame base
/// before.
pub proof fn callers_in_call_order(
    mem: Map<u64, u64>,
    bp: u64,
    seen: Set<u64>,
    budget: nat,
    k: nat,
)
    requires
        k < callers(mem, bp, seen, budget).len(),
    ensures
        word_at(mem, frame_base(mem, bp, k) + 8) == Some(callers(mem, bp, seen, budget)[k as int]),
        !seen.contains(frame_base(mem, bp, k)),
    decreases budget,
{
    if budget > 0 && !seen.contains(bp) {
        match (word_at(mem, bp as int), word_at(mem, bp + 8)) {
            (Some(saved_bp), Some(_)) => {
                if k > 0 {
                    callers_in_call_order(
                        mem,
                        saved_bp,
                        seen.insert(bp),
                        (budget - 1) as nat,
                        (k - 1) as nat,
                    );
                }
            },
            _ => {},
        }
    }
}

/// No frame base is walked from twice: the frame bases of two callers of
/// one walk differ.
pub proof fn frame_bases_are_distinct(
    mem: Map<u64, u64>,
    bp: u64,
    seen: Set<u64>,
    budget: nat,
    k: nat,
    l: nat,
)
    requires
        k < l < callers(mem, bp, seen, budget).len(),
    ensures
        frame_base(mem, bp, k) != frame_base(mem, bp, l),
    decreases budget,
{
    if budget > 0 && !seen.contains(bp) {
        match (word_at(mem, bp as int), word_at(mem, bp + 8)) {
            (Some(saved_bp), Some(_)) => {
                if k == 0 {
                    callers_in_call_order(
                        mem,
                        saved_bp,
                        seen.insert(bp),
                        (budget - 1) as nat,
                        (l - 1) as nat,
                    );
                } else {
                    frame_bases_are_distinct(
                        mem,
                        saved_bp,
                        seen.insert(bp),
                        (budget - 1) as nat,
                        (k - 1) as nat,
                        (l - 1) as nat,
                    );
                }
            },
            _ => {},
        }
    }
}

/// The walk follows no more links than the memory holds readable words
/// that it has not been at: each link starts at another readable word.
pub proof fn callers_fit_in_memory(mem: Map<u64, u64>, bp: u64, seen: Set<u64>, budget: nat)
    requires
        mem.dom().finite(),
    ensures
        callers(mem, bp, seen, budget).len() <= mem.dom().difference(seen).len(),
    decreases budget,
{
    if budget > 0 && !seen.contains(bp) {
        match (word_at(mem, bp as int), word_at(mem, bp + 8)) {
            (Some(saved_bp), Some(_)) => {
                let unseen = mem.dom().difference(seen);
                callers_fit_in_memory(mem, saved_bp, seen.insert(bp), (budget - 1) as nat);
                assert(unseen.contains(bp));
                assert(mem.dom().difference(seen.insert(bp)) =~= unseen.remove(bp));
            },
            _ => {},
        }
    }
}

/// A backtrace holds no more frames than the memory holds readable words,
/// and one: however the frame bases are linked, the walk comes to an end.
pub proof fn backtrace_fits_in_memory(mem: Map<u64, u64>, regs: Registers, budget: nat)
    requires
        mem.dom().finite(),
    ensures
        backtrace(mem, regs, budget).len() <= mem.dom().len() + 1,
{
    callers_fit_in_memory(mem, regs.rbp, Set::empty(), budget);
    assert(mem.dom().difference(Set::empty()) =~= mem.dom());
}

/// A walk that ended before its budget was used up went to the end of the
/// chain: a larger budget finds the same frames.
pub proof fn walk_ends_with_chain(
    mem: Map<u64, u64>,
    bp: u64,
    seen: Set<u64>,
    budget: nat,
    more: nat,
)
    requires
        callers(mem, bp, seen, budget).len() < budget,
        budget <= more,
    ensures
        callers(mem, bp, seen, more) == callers(mem, bp, seen, budget),
    decreases budget,
{
    if !seen.contains(bp) {
        match (word_at(mem, bp as int), word_at(mem, bp + 8)) {
            (Some(saved_bp), Some(_)) => {
                walk_ends_with_chain(
                    mem,
                    saved_bp,
                    seen.insert(bp),
                    (budget - 1) as nat,
                    (more - 1) as nat,
                );
            },
            _ => {},
        }
    }
}

/// Every read that `read_word` can answer is answered as the memory `mem`
/// determines.
pub open spec fn reads_from<F: Fn(u64) -> Option<u64>>(read_word: F, mem: Map<u64, u64>) -> bool {
    forall|addr: u64, got: Option<u64>| #[trigger]
        call_ensures(read_word, (addr,), got) ==> got == word_at(mem, addr as int)
}

/// Walks the stack of a stopped inferior whose registers are `regs` and whose
/// memory is read, one word at a time, through `read_word` (`None` for a word
/// that cannot be read). Frame 0 is the current instruction pointer; each
/// further frame is a return address, innermost first. The walk ends at a
/// link that cannot be read, at a frame base that it has been at before, and
/// after `limit` callers at the latest.
pub fn walk_stack<F: Fn(u64) -> Option<u64>>(regs: Registers, read_word: F, limit: usize) -> (frames:
    Vec<u64>)
    requires
        forall|addr: u64| call_requires(read_word, (addr,)),
    ensures
        1 <= frames@.len() <= limit + 1,
        frames@[0] == regs.rip,
        forall|mem: Map<u64, u64>| #[trigger]
            reads_from(read_word, mem) ==> frames@ == backtrace(mem, regs, limit as nat),
        forall|mem: Map<u64, u64>| #[trigger]
            reads_from(read_word, mem) && mem.dom().finite() ==> frames@.len() <= mem.dom().len()
                + 1,
{
    let mut frames: Vec<u64> = Vec::new();
    frames.push(regs.rip);
    let mut bp: u64 = regs.rbp;
    let mut seen: HashSet<u64> = HashSet::new();
    let mut taken: usize = 0;
    let mut linked: bool = true;
    while linked && taken < limit
        invariant
            taken <= limit,
            frames@.len() == taken + 1,
            frames@[0] == regs.rip,
            forall|addr: u64| call_requires(read_word, (addr,)),
            forall|mem: Map<u64, u64>| #[trigger]
                reads_from(read_word, mem) ==> backtrace(mem, regs, limit as nat) == frames@ + (if linked {
                    callers(mem, bp, seen@, (limit - taken) as nat)
                } else {
                    Seq::empty()
                }),
        decreases limit - taken + (if linked { 1int } else { 0int }),
    {
        let ghost before = frames@;
        let ghost base = bp;
        let ghost passed = seen@;
        if seen.contains(&bp) {
            linked = false;
        } else {
            seen.insert(bp);
            let saved = read_word(bp);
            let above = if bp <= u64::MAX - 8 {
                match saved {
                    Some(_) => read_word(bp + 8),
                    None => None,
                }
            } else {
                None
            };
            match (saved, above) {
                (Some(saved_bp), Some(return_address)) => {
                    frames.push(return_address);
                    bp = saved_bp;
                    taken += 1;
                    assert forall|mem: Map<u64, u64>| #[trigger]
                        reads_from(read_word, mem) implies backtrace(mem, regs, limit as nat)
                        == frames@ + callers(mem, bp, seen@, (limit - taken) as nat) by {
                        assert(call_ensures(read_word, (base,), saved));
                        assert(call_ensures(read_word, ((base + 8) as u64,), above));
                        let rest = callers(mem, bp, seen@, (limit - taken) as nat);
                        assert(callers(mem, base, passed, (limit - taken + 1) as nat) == seq![
                            return_address,
                        ] + rest);
                        assert(before + (seq![return_address] + rest) =~= before.push(
                            return_address,
                        ) + rest);
                    }
                },
                _ => {
                    linked = false;
                    assert forall|mem: Map<u64, u64>| #[trigger]
                        reads_from(read_word, mem) implies backtrace(mem, regs, limit as nat)
                        == frames@ + Seq::<u64>::empty() by {
                        assert(call_ensures(read_word, (base,), saved));
                        if base <= u64::MAX - 8 && saved is Some {
                            assert(call_ensures(read_word, ((base + 8) as u64,), above));
                        }
                        assert(callers(mem, base, passed, (limit - taken) as nat) == Seq::<
                            u64,
                        >::empty());
                    }
                },
            }
        }
    }
    proof {
        assert forall|mem: Map<u64, u64>| #[trigger]
            reads_from(read_word, mem) implies frames@ == backtrace(mem, regs, limit as nat) by {
            assert(frames@ + Seq::<u64>::empty() =~= frames@);
        }
        assert forall|mem: Map<u64, u64>| #[trigger]
            reads_from(read_word, mem) && mem.dom().finite() implies frames@.len() <= mem.dom().len()
            + 1 by {
            backtrace_fits_in_memory(mem, regs, limit as nat);
        }
    }
    frames
}

/// The line that shows one frame: its index, the function's name and the
/// source line where the resolver found them, and the raw address.
pub open spec fn frame_line(index: nat, symbol: Symbol, address: u64) -> Seq<char> {
    decimal(index as int) + ": "@ + (match symbol.function {
        Some(function) => function@ + " "@,
        None => Seq::empty(),
    }) + (match symbol.line {
        Some(line) => line@ + " "@,
        None => Seq::empty(),
    }) + "rip: "@ + hex(address as nat)
}

/// `line` shows the frame with index `index` and address `address`, with a
/// symbol that `debug_data` resolves for that address.
pub open spec fn shows_frame<D: Fn(u64) -> Symbol>(
    debug_data: D,
    index: nat,
    address: u64,
    line: Seq<char>,
) -> bool {
    exists|symbol: Symbol| #[trigger]
        call_ensures(debug_data, (address,), symbol) && line == frame_line(index, symbol, address)
}

/// `line` shows the frame with index `index` of some address, with a
/// symbol that `debug_data` resolves for that address.
pub open spec fn shows_some_frame<D: Fn(u64) -> Symbol>(
    debug_data: D,
    index: nat,
    line: Seq<char>,
) -> bool {
    exists|address: u64| #[trigger] shows_frame(debug_data, index, address, line)
}

/// Renders the frames of a backtrace, one line each and in their order, each
/// with what `debug_data` resolves of its address.
pub fn render_frames<D: Fn(u64) -> Symbol>(frames: &Vec<u64>, debug_data: D) -> (lines: Vec<String>)
    requires
        forall|address: u64| call_requires(debug_data, (address,)),
    ensures
        lines@.len() == frames@.len(),
        forall|i: int|
            0 <= i < frames@.len() ==> #[trigger] shows_frame(
                debug_data,
                i as nat,
                frames@[i],
                lines@[i]@,
            ),
{
    let mut lines: Vec<String> = Vec::new();
    let mut i: usize = 0;
    while i < frames.len()
        invariant
            i <= frames@.len(),
            lines@.len() == i,
            forall|address: u64| call_requires(debug_data, (address,)),
            forall|k: int|
                0 <= k < i ==> #[trigger] shows_frame(debug_data, k as nat, frames@[k], lines@[k]@),
        decreases frames@.len() - i,
    {
        let symbol = debug_data(frames[i]);
        let line = render_frame(i, &symbol, frames[i]);
        assert(shows_frame(debug_data, i as nat, frames@[i as int], line@));
        lines.push(line);
        i += 1;
    }
    lines
}

/// Renders one frame of a backtrace.
pub fn render_frame(index: usize, symbol: &Symbol, address: u64) -> (s: String)
    ensures
        s@ == frame_line(index as nat, *symbol, address),
{
    let mut s = String::new();
    push_unsigned(&mut s, index as u64);
    s.append(": ");
    match &symbol.function {
        Some(function) => {
            s.append(function.as_str());
            s.append(" ");
        },
        None => {},
    }
    match &symbol.line {
        Some(line) => {
            s.append(line.as_str());
            s.append(" ");
        },
        None => {},
    }
    s.append("rip: ");
    push_hex(&mut s, address);
    proof {
        assert(s@ =~= frame_line(index as nat, *symbol, address));
    }
    s
}

} // verus!
