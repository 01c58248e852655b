//! Cooperative interruption of operations that are under way.
use vstd::prelude::*;

verus! {

/// The signal that interrupts the operations of one agent.
///
/// Each operation remembers the signal's generation when it starts. An interrupt
/// reaches all operations that were already active, while operations started
/// afterward are unaffected.
#[derive(Clone, Copy, Debug, PartialEq, Eq)]
pub struct InterruptSignal {
    generation: u64,
}

/// What an operation remembers of the signal.
#[derive(Clone, Copy, Debug, PartialEq, Eq)]
pub struct AgentInterruptToken {
    baseline: u64,
}

impl View for InterruptSignal {
    type V = u64;

    closed spec fn view(&self) -> u64 {
        self.generation
    }
}

impl View for AgentInterruptToken {
    type V = u64;

    closed spec fn view(&self) -> u64 {
        self.baseline
    }
}

/// The generation after a number of interrupts.
pub open spec fn after_interrupts(generation: u64, interrupts: nat) -> u64 {
    ((generation + interrupts) % 0x1_0000_0000_0000_0000) as u64
}

impl Default for InterruptSignal {
    fn default() -> (signal: InterruptSignal)
        ensures
            signal@ == 0,
    {
        InterruptSignal::new()
    }
}

impl InterruptSignal {
    /// A signal with no pending interrupt.
    pub fn new() -> (signal: InterruptSignal)
        ensures
            signal@ == 0,
    {
        InterruptSignal { generation: 0 }
    }

    /// A signal of a generation.
    pub fn at(generation: u64) -> (signal: InterruptSignal)
        ensures
            signal@ == generation,
    {
        InterruptSignal { generation }
    }

    /// The generation of the signal.
    pub fn generation(&self) -> (generation: u64)
        ensures
            generation == self@,
    {
        self.generation
    }

    /// Requests interruption of all operations that are active.
    pub fn interrupt(&mut self)
        ensures
            final(self)@ == after_interrupts(old(self)@, 1),
    {
        self.generation = self.generation.wrapping_add(1);
    }

    /// What a new operation remembers.
    pub fn token(&self) -> (token: AgentInterruptToken)
        ensures
            token@ == self@,
    {
        AgentInterruptToken { baseline: self.generation }
    }
}

impl AgentInterruptToken {
    /// Whether the signal has changed since the operation started.
    pub fn is_interrupted(&self, signal: &InterruptSignal) -> (interrupted: bool)
        ensures
            interrupted == (signal@ != self@),
    {
        signal.generation != self.baseline
    }
}

/// An interrupt reaches every operation that started before it, up to as many
/// interrupts as there are generations, and none that starts afterward.
pub proof fn interrupts_reach_active_operations_only(generation: u64, interrupts: nat)
    ensures
        0 < interrupts < 0x1_0000_0000_0000_0000 ==> after_interrupts(generation, interrupts)
            != generation,
        after_interrupts(generation, 0) == generation,
{
}

} // verus!
