//! Panics: the guard against a panic inside a panic, the report a panic prints, how the
//! kernel stops afterwards, and the slot that holds a panic hook.
use vstd::prelude::*;
use vstd::string::*;
use crate::print::timestamp_spec;
use crate::text::{decimal, decimal_string, push_decimal, push_padded};

verus! {

/// What the panic handler does on entry.
#[derive(Debug, Clone, Copy, PartialEq, Eq)]
pub enum ReenterDecision {
    /// No panic was in progress: report this one.
    Proceed,
    /// A panic was already in progress: stop at once.
    Halt,
}

/// The flag after the guard runs, and what the handler does: the flag is always set, and the
/// handler goes on only when no panic was in progress.
pub open spec fn reenter_spec(in_progress: bool) -> (bool, ReenterDecision) {
    (true, if in_progress { ReenterDecision::Halt } else { ReenterDecision::Proceed })
}

/// Stop immediately if called a second time: given whether a panic is already in progress,
/// says whether to go on, and gives the new state of the flag.
pub fn panic_prevent_reenter(in_progress: bool) -> (r: (bool, ReenterDecision))
    ensures
        r == reenter_spec(in_progress),
{
    if !in_progress {
        return (true, ReenterDecision::Proceed);
    }
    (true, ReenterDecision::Halt)
}

/// The guard lets exactly one panic through: starting from no panic in progress, the first
/// call goes on and every later call halts.
pub proof fn lemma_reenter_once(calls: nat)
    ensures
        reenter_spec(false).1 == ReenterDecision::Proceed,
        reenter_after(false, calls + 1) == true,
        reenter_spec(reenter_after(false, calls + 1)).1 == ReenterDecision::Halt,
    decreases calls,
{
    if calls > 0 {
        lemma_reenter_once((calls - 1) as nat);
    }
}

/// The flag after `calls` calls of the guard, starting from `in_progress`.
pub open spec fn reenter_after(in_progress: bool, calls: nat) -> bool
    decreases calls,
{
    if calls == 0 {
        in_progress
    } else {
        reenter_spec(reenter_after(in_progress, (calls - 1) as nat)).0
    }
}

/// How the kernel stops after a panic.
#[derive(Debug, Clone, Copy, PartialEq, Eq)]
pub enum PanicExit {
    /// Park the core.
    WaitForever,
    /// Leave QEMU with a failure status (test builds).
    QemuExitFailure,
}

/// The point of exit after a panic: a test build leaves QEMU with a failure status, any other
/// build parks the core.
pub fn panic_exit(test_build: bool) -> (e: PanicExit)
    ensures
        e == (if test_build { PanicExit::QemuExitFailure } else { PanicExit::WaitForever }),
{
    if test_build {
        PanicExit::QemuExitFailure
    } else {
        PanicExit::WaitForever
    }
}

/// Where a panic happened: file, line and column.
pub struct PanicLocation<'a> {
    pub file: &'a str,
    pub line: u32,
    pub column: u32,
}

/// The report of a panic at `secs.micros`, at `file`, `line`, `column`, with `message`.
pub open spec fn panic_report_spec(secs: u64, micros: u32, file: Seq<char>, line: u32, column: u32,
    message: Seq<char>) -> Seq<char> {
    "\n\n[  "@ + timestamp_spec(secs, micros) + "] Kernel panic!\n\n\n        Panic location:\n      File '"@
        + file + "', line "@ + decimal(line as nat) + ", column "@ + decimal(column as nat)
        + "\n\n\n        "@ + message + "\n"@
}

/// The report a panic prints (before the print adds the reset escape). Without a location the
/// file is `???` and line and column are 0.
pub fn panic_report(secs: u64, micros: u32, location: Option<PanicLocation>, message: &str) -> (s: String)
    ensures
        s@ == (match location {
            Some(loc) => panic_report_spec(secs, micros, loc.file@, loc.line, loc.column, message@),
            None => panic_report_spec(secs, micros, "???"@, 0, 0, message@),
        }),
{
    let (file, line, column) = match location {
        Some(loc) => (loc.file, loc.line, loc.column),
        None => ("???", 0u32, 0u32),
    };
    proof {
        reveal_strlit(" ");
        reveal_strlit("0");
    }
    let mut s = "\n\n[  ".to_owned();
    let secs_text = decimal_string(secs);
    push_padded(&mut s, secs_text.as_str(), 3, " ");
    s.append(".");
    let micros_text = decimal_string(micros as u64);
    push_padded(&mut s, micros_text.as_str(), 6, "0");
    s.append("] Kernel panic!\n\n\n        Panic location:\n      File '");
    s.append(file);
    s.append("', line ");
    push_decimal(&mut s, line as u64);
    s.append(", column ");
    push_decimal(&mut s, column as u64);
    s.append("\n\n\n        ");
    s.append(message);
    s.append("\n");
    assert(s@ =~= panic_report_spec(secs, micros, file@, line, column, message@));
    s
}

/// The slot that holds the panic hook.
pub struct PanicHookSlot<H> {
    hook: Option<H>,
}

impl<H> PanicHookSlot<H> {
    /// The hook the slot holds.
    pub closed spec fn current(&self) -> Option<H> {
        self.hook
    }

    /// An empty slot.
    pub fn new() -> (s: PanicHookSlot<H>)
        ensures
            s.current() == None::<H>,
    {
        PanicHookSlot { hook: None }
    }

    /// Set the panic hook, replacing any hook that was set.
    pub fn set_panic_hook(&mut self, hook: H)
        ensures
            final(self).current() == hook_after_set(old(self).current(), hook),
    {
        self.hook = Some(hook);
    }

    /// Take the current panic hook and remove it.
    pub fn take_panic_hook(&mut self) -> (old_hook: Option<H>)
        ensures
            (old_hook, final(self).current()) == hook_after_take(old(self).current()),
    {
        let old_hook = self.hook.take();
        self.hook = None;
        old_hook
    }
}

/// The slot after setting `hook`: it holds `hook`, whatever it held before.
pub open spec fn hook_after_set<H>(slot: Option<H>, hook: H) -> Option<H> {
    Some(hook)
}

/// Taking from the slot: what it held is handed out, and it is left empty.
pub open spec fn hook_after_take<H>(slot: Option<H>) -> (Option<H>, Option<H>) {
    (slot, None)
}

/// Taking the hook gives back the hook set last (a later hook replaces an earlier one), a
/// second take finds none, and a take before any set finds none.
pub proof fn lemma_take_after_set<H>(slot: Option<H>, first: H, second: H)
    ensures
        hook_after_take(hook_after_set(slot, second)).0 == Some(second),
        hook_after_take(hook_after_set(hook_after_set(slot, first), second)).0 == Some(second),
        hook_after_take(hook_after_take(slot).1).0 == None::<H>,
        hook_after_take(None::<H>).0 == None::<H>,
{
}

} // verus!
