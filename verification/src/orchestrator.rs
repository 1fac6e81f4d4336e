//! Bookkeeping of the peripheral orchestrator's execution contexts: the
//! emulation clock's cycle budget, the single-slot latest-wins video
//! handoff, the audio queue's admission and drain policy, and the small
//! decisions of the test mode. The binary owns the threads and channels
//! and drives these from its loops.

use vstd::prelude::*;

verus! {

/// Emulated cycles the clock thread runs per 16 ms scheduling quantum:
/// 4194304 cycles per second over 16 ms, rounded to the nearest cycle.
pub const CYCLES_PER_QUANTUM: u64 = 67109;

/// Cycle accounting of the emulation clock thread: cycles accumulate
/// against a fixed per-quantum budget.
#[derive(Debug, Clone, Copy)]
pub struct CycleBudget {
    /// Cycles accumulated toward the current quantum.
    pub ticks: u64,
    /// Cycles that make up one quantum.
    pub budget: u64,
}

/// Accounting for one tick of the emulation core: the reported cycles are
/// added, the budget stands. Deliberately a function of the cycle count
/// alone: frame completion and frame delivery do not appear.
pub open spec fn account(b: CycleBudget, cycles: u32) -> CycleBudget {
    CycleBudget { ticks: (b.ticks + cycles) as u64, budget: b.budget }
}

impl CycleBudget {
    /// Fresh accounting against the given per-quantum budget.
    pub fn new(budget: u64) -> (r: CycleBudget)
        ensures
            r.ticks == 0,
            r.budget == budget,
    {
        CycleBudget { ticks: 0, budget }
    }

    /// Whether the current quantum still needs cycles run.
    pub fn needs_cycles(&self) -> (r: bool)
        ensures
            r == (self.ticks < self.budget),
    {
        self.ticks < self.budget
    }

    /// Account the cycles one core tick reported.
    pub fn add_cycles(&mut self, cycles: u32)
        requires
            old(self).ticks < old(self).budget,
            old(self).budget <= CYCLES_PER_QUANTUM,
        ensures
            *final(self) == account(*old(self), cycles),
    {
        self.ticks = self.ticks + cycles as u64;
    }

    /// Close the filled quantum, carrying excess cycles into the next one.
    pub fn finish_quantum(&mut self)
        requires
            old(self).ticks >= old(self).budget,
        ensures
            final(self).ticks == old(self).ticks - old(self).budget,
            final(self).budget == old(self).budget,
    {
        self.ticks = self.ticks - self.budget;
    }
}

/// The cycle counts of a run of core ticks, with the flag saying whether
/// each tick completed a video frame.
pub open spec fn run_ticks(b: CycleBudget, steps: Seq<(u32, bool)>) -> CycleBudget
    decreases steps.len(),
{
    if steps.len() == 0 {
        b
    } else {
        account(run_ticks(b, steps.drop_last()), steps.last().0)
    }
}

/// The delivery-independence law: over any run of core ticks, the cycle
/// accounting depends on the reported cycle counts alone. Two runs whose
/// ticks report the same cycles leave the same accounting, however their
/// frame completions and deliveries differ — dropped frames never skew the
/// clock.
pub proof fn lemma_accounting_ignores_delivery(
    b: CycleBudget,
    steps1: Seq<(u32, bool)>,
    steps2: Seq<(u32, bool)>,
)
    requires
        steps1.len() == steps2.len(),
        forall|i: int| 0 <= i < steps1.len() ==> (#[trigger] steps1[i]).0 == (#[trigger] steps2[i]).0,
    ensures
        run_ticks(b, steps1) == run_ticks(b, steps2),
    decreases steps1.len(),
{
    if steps1.len() > 0 {
        lemma_accounting_ignores_delivery(b, steps1.drop_last(), steps2.drop_last());
    }
}

/// A single-slot, latest-wins video frame handoff: a freshly produced
/// frame replaces an unconsumed older one rather than queuing behind it,
/// and offering never blocks.
pub struct FrameSlot {
    pub slot: Option<Vec<u8>>,
}

/// What one offer leaves in the slot: exactly the offered frame, whatever
/// was there before.
pub open spec fn offer_post(n: FrameSlot, frame: Vec<u8>) -> bool {
    n.slot == Some(frame)
}

impl FrameSlot {
    /// An empty handoff slot.
    pub fn new() -> (r: FrameSlot)
        ensures
            r.slot is None,
    {
        FrameSlot { slot: None }
    }

    /// Offer a frame: it takes the slot, overwriting any unconsumed older
    /// frame.
    pub fn offer(&mut self, frame: Vec<u8>)
        ensures
            offer_post(*final(self), frame),
    {
        self.slot = Some(frame);
    }

    /// Take the pending frame, if any, leaving the slot empty.
    pub fn take(&mut self) -> (r: Option<Vec<u8>>)
        ensures
            r == old(self).slot,
            final(self).slot is None,
    {
        self.slot.take()
    }
}

/// The latest-wins law: when the producer has offered twice since the last
/// take, the slot holds the second frame — the consumer never receives the
/// stale one. Because one offer's outcome stands whatever the slot held
/// before, this extends to any number of unconsumed offers.
pub proof fn lemma_latest_wins(s1: FrameSlot, s2: FrameSlot, f1: Vec<u8>, f2: Vec<u8>)
    requires
        offer_post(s1, f1),
        offer_post(s2, f2),
    ensures
        s2.slot == Some(f2),
{
}

/// How many queued stereo sample pairs one audio callback drains: the
/// callback's capacity (half its interleaved buffer) or everything queued,
/// whichever is smaller.
pub fn drain_count(out_len: usize, queued: usize) -> (r: usize)
    ensures
        r == (if out_len / 2 <= queued {
            out_len / 2
        } else {
            queued
        }),
{
    let cap = out_len / 2;
    if cap <= queued {
        cap
    } else {
        queued
    }
}

/// Whether the audio producer may enqueue another stereo sample pair: the
/// queue admits at most one second of audio (`sample_rate` pairs beyond
/// the current one), discarding the rest to bound memory and resynchronize
/// quickly.
pub fn audio_accepts(queued: usize, sample_rate: u32) -> (r: bool)
    ensures
        r == (queued <= sample_rate as usize),
{
    queued <= sample_rate as usize
}

/// What the test mode does with one byte read from standard input.
#[derive(Debug, Clone, Copy, PartialEq, Eq, Structural)]
pub enum TestModeAction {
    /// Stop the test run.
    Quit,
    /// Print the current frame as a hex dump.
    Screenshot,
    /// Anything else: reported and ignored.
    Unknown,
}

/// Decode one byte of test-mode input: `q` quits, `s` takes a screenshot,
/// everything else is reported and ignored.
pub fn test_mode_action(b: u8) -> (r: TestModeAction)
    ensures
        r == (if b == 113 {
            TestModeAction::Quit
        } else if b == 115 {
            TestModeAction::Screenshot
        } else {
            TestModeAction::Unknown
        }),
{
    if b == 113 {
        TestModeAction::Quit
    } else if b == 115 {
        TestModeAction::Screenshot
    } else {
        TestModeAction::Unknown
    }
}

/// The ASCII code of `n`'s lowercase hexadecimal digit, for `n` below 16.
pub open spec fn hex_digit(n: u8) -> u8 {
    if n < 10 {
        (n + 48) as u8
    } else {
        (n + 87) as u8
    }
}

/// Executable form of [`hex_digit`].
fn hex_digit_exec(n: u8) -> (r: u8)
    requires
        n < 16,
    ensures
        r == hex_digit(n),
{
    if n < 10 {
        n + 48
    } else {
        n + 87
    }
}

/// Render bytes as lowercase hexadecimal ASCII, two digits per byte, for
/// the test mode's screenshot dump.
pub fn hex_bytes(data: &[u8]) -> (r: Vec<u8>)
    ensures
        r@.len() == 2 * data@.len(),
        forall|i: int|
            0 <= i < data@.len() ==> r@[2 * i] == hex_digit((#[trigger] data@[i]) / 16)
                && r@[2 * i + 1] == hex_digit(data@[i] % 16),
{
    let mut r: Vec<u8> = Vec::new();
    let mut i: usize = 0;
    while i < data.len()
        invariant
            i <= data@.len(),
            r@.len() == 2 * i,
            forall|j: int|
                0 <= j < i ==> r@[2 * j] == hex_digit((#[trigger] data@[j]) / 16) && r@[2 * j
                    + 1] == hex_digit(data@[j] % 16),
        decreases data@.len() - i,
    {
        let b = data[i];
        r.push(hex_digit_exec(b / 16));
        r.push(hex_digit_exec(b % 16));
        i = i + 1;
    }
    r
}

} // verus!
