//! Sequencing rules of the execution harness.
//!
//! The engine offers one primitive, "advance one cycle". Booting, stepping one
//! instruction and running to an address are built from it. Each is a small
//! state machine here: the driver advances the engine by one cycle, reports
//! what it then observed, and is told whether to advance again or how the
//! operation ended.

use vstd::prelude::*;

verus! {

/// Cycles of the reset sequence, during which the engine fetches the two
/// startup vectors. The count belongs to the engine build in use.
pub const BOOT_CYCLES: usize = 242;

/// Most cycles that one instruction may take before it is given up.
pub const INSTRUCTION_CYCLE_LIMIT: usize = 10000;

/// How a harness operation can fail.
#[derive(Clone, Copy, Debug, PartialEq, Eq, Structural)]
pub enum HarnessError {
    /// The memory capability could not serve an access of the engine.
    MemoryAccess,
    /// The program counter did not change within the cycle limit.
    InstructionDidNotComplete,
}

/// What the driver observed after one engine cycle.
#[derive(Clone, Copy, Debug, PartialEq, Eq, Structural)]
pub struct CycleReport {
    /// Program counter after the cycle.
    pub pc: u32,
    /// Every memory access of the cycle was served.
    pub memory_ok: bool,
}

/// The reset sequence in progress.
#[derive(Clone, Copy, Debug, PartialEq, Eq, Structural)]
pub struct BootSequence {
    /// Cycles advanced so far.
    pub cycles: usize,
}

/// What follows a cycle of the reset sequence.
#[derive(Clone, Copy, Debug, PartialEq, Eq)]
pub enum BootProgress {
    /// Advance the engine once more and report again.
    Advance(BootSequence),
    /// The sequence is over.
    Finished(Result<(), HarnessError>),
}

impl BootSequence {
    /// The sequence still has cycles to go.
    pub open spec fn wf(self) -> bool {
        self.cycles < BOOT_CYCLES
    }

    /// The sequence after one more cycle during which memory was served or not.
    pub open spec fn spec_observe(self, memory_ok: bool) -> BootProgress {
        if !memory_ok {
            BootProgress::Finished(Err(HarnessError::MemoryAccess))
        } else if self.cycles + 1 >= BOOT_CYCLES {
            BootProgress::Finished(Ok(()))
        } else {
            BootProgress::Advance(BootSequence { cycles: (self.cycles + 1) as usize })
        }
    }

    /// The sequence after successive cycles, each given by whether memory
    /// was served during it. Cycles after the one that ended the sequence are
    /// not looked at.
    pub open spec fn replay(self, served: Seq<bool>) -> BootProgress
        decreases served.len(),
    {
        if served.len() == 0 {
            BootProgress::Advance(self)
        } else {
            match self.spec_observe(served[0]) {
                BootProgress::Advance(next) => next.replay(served.drop_first()),
                BootProgress::Finished(outcome) => BootProgress::Finished(outcome),
            }
        }
    }

    /// A reset sequence of which no cycle has run.
    pub fn begin() -> (r: BootSequence)
        ensures
            r.cycles == 0,
            r.wf(),
    {
        BootSequence { cycles: 0 }
    }

    /// Takes the report of the cycle just advanced. The sequence ends with a
    /// failure at the first cycle whose memory access failed, and with success
    /// after the last of its cycles; until then it asks for another cycle.
    pub fn observe(self, memory_ok: bool) -> (r: BootProgress)
        ensures
            r == self.spec_observe(memory_ok),
            r matches BootProgress::Advance(next) ==> next.wf(),
    {
        if !memory_ok {
            BootProgress::Finished(Err(HarnessError::MemoryAccess))
        } else if self.cycles >= BOOT_CYCLES - 1 {
            BootProgress::Finished(Ok(()))
        } else {
            BootProgress::Advance(BootSequence { cycles: self.cycles + 1 })
        }
    }
}

/// One instruction in progress: the program counter at its start and the
/// cycles spent on it so far.
#[derive(Clone, Copy, Debug, PartialEq, Eq, Structural)]
pub struct InstructionStep {
    /// Program counter when the step began.
    pub entry_pc: u32,
    /// Cycles advanced so far.
    pub cycles: usize,
}

/// What follows a cycle of an instruction step.
#[derive(Clone, Copy, Debug, PartialEq, Eq)]
pub enum StepProgress {
    /// Advance the engine once more and report again.
    Advance(InstructionStep),
    /// The step is over: the cycles it consumed, or why it failed.
    Finished(Result<usize, HarnessError>),
}

impl InstructionStep {
    /// The step is still below the cycle limit.
    pub open spec fn wf(self) -> bool {
        self.cycles < INSTRUCTION_CYCLE_LIMIT
    }

    /// The step after one more cycle with the given report: a failed memory
    /// access ends it; a program counter that left its entry value completes
    /// it; the last cycle that the limit allows gives it up. A step that had
    /// used up the limit before is given up whatever the report says.
    pub open spec fn spec_observe(self, report: CycleReport) -> StepProgress {
        if !report.memory_ok {
            StepProgress::Finished(Err(HarnessError::MemoryAccess))
        } else if self.cycles >= INSTRUCTION_CYCLE_LIMIT {
            StepProgress::Finished(Err(HarnessError::InstructionDidNotComplete))
        } else if report.pc != self.entry_pc {
            StepProgress::Finished(Ok((self.cycles + 1) as usize))
        } else if self.cycles + 1 == INSTRUCTION_CYCLE_LIMIT {
            StepProgress::Finished(Err(HarnessError::InstructionDidNotComplete))
        } else {
            StepProgress::Advance(
                InstructionStep { entry_pc: self.entry_pc, cycles: (self.cycles + 1) as usize },
            )
        }
    }

    /// The step after the reports of successive cycles, in order. Reports
    /// after the one that ended the step are not looked at.
    pub open spec fn replay(self, reports: Seq<CycleReport>) -> StepProgress
        decreases reports.len(),
    {
        if reports.len() == 0 {
            StepProgress::Advance(self)
        } else {
            match self.spec_observe(reports[0]) {
                StepProgress::Advance(next) => next.replay(reports.drop_first()),
                StepProgress::Finished(outcome) => StepProgress::Finished(outcome),
            }
        }
    }

    /// A step that starts with the program counter at `pc`.
    pub fn begin(pc: u32) -> (r: InstructionStep)
        ensures
            r == (InstructionStep { entry_pc: pc, cycles: 0 }),
            r.wf(),
    {
        InstructionStep { entry_pc: pc, cycles: 0 }
    }

    /// Takes the report of the cycle just advanced and says how the step goes on.
    pub fn observe(self, report: CycleReport) -> (r: StepProgress)
        ensures
            r == self.spec_observe(report),
            r matches StepProgress::Advance(next) ==> next.wf(),
            r matches StepProgress::Finished(Ok(cycles)) ==> 1 <= cycles
                <= INSTRUCTION_CYCLE_LIMIT,
    {
        if !report.memory_ok {
            StepProgress::Finished(Err(HarnessError::MemoryAccess))
        } else if self.cycles >= INSTRUCTION_CYCLE_LIMIT {
            StepProgress::Finished(Err(HarnessError::InstructionDidNotComplete))
        } else if report.pc != self.entry_pc {
            StepProgress::Finished(Ok(self.cycles + 1))
        } else if self.cycles + 1 == INSTRUCTION_CYCLE_LIMIT {
            StepProgress::Finished(Err(HarnessError::InstructionDidNotComplete))
        } else {
            StepProgress::Advance(
                InstructionStep { entry_pc: self.entry_pc, cycles: self.cycles + 1 },
            )
        }
    }
}

/// A run to a target address in progress.
#[derive(Clone, Copy, Debug, PartialEq, Eq, Structural)]
pub struct RunUntil {
    /// Program counter at which the run ends.
    pub target_pc: u32,
    /// Cycles that the instructions stepped so far consumed.
    pub total_cycles: usize,
}

/// What follows an instruction of a run.
#[derive(Clone, Copy, Debug, PartialEq, Eq)]
pub enum RunProgress {
    /// Step another instruction and report again.
    StepAgain(RunUntil),
    /// The run is over: the cycles it consumed, or why it failed.
    Finished(Result<usize, HarnessError>),
}

impl RunUntil {
    /// The run after one more instruction, which ended with `outcome` and left
    /// the program counter at `pc`: a failed instruction fails the run; a
    /// program counter at the target ends it with the cycles of all its
    /// instructions; otherwise it goes on.
    pub open spec fn spec_after_instruction(
        self,
        outcome: Result<usize, HarnessError>,
        pc: u32,
    ) -> RunProgress {
        match outcome {
            Err(e) => RunProgress::Finished(Err(e)),
            Ok(cycles) => if pc == self.target_pc {
                RunProgress::Finished(Ok((self.total_cycles + cycles) as usize))
            } else {
                RunProgress::StepAgain(
                    RunUntil {
                        target_pc: self.target_pc,
                        total_cycles: (self.total_cycles + cycles) as usize,
                    },
                )
            },
        }
    }

    /// The run after a sequence of stepped instructions, each given by its
    /// outcome and the program counter read after it. Instructions after the
    /// one that ended the run are not looked at.
    pub open spec fn replay(self, instructions: Seq<(Result<usize, HarnessError>, u32)>) -> RunProgress
        decreases instructions.len(),
    {
        if instructions.len() == 0 {
            RunProgress::StepAgain(self)
        } else {
            match self.spec_after_instruction(instructions[0].0, instructions[0].1) {
                RunProgress::StepAgain(next) => next.replay(instructions.drop_first()),
                RunProgress::Finished(outcome) => RunProgress::Finished(outcome),
            }
        }
    }

    /// A run to `target_pc` of which no instruction has been stepped.
    pub fn begin(target_pc: u32) -> (r: RunUntil)
        ensures
            r == (RunUntil { target_pc, total_cycles: 0 }),
    {
        RunUntil { target_pc, total_cycles: 0 }
    }

    /// Takes the outcome of the instruction just stepped and the program
    /// counter read after it, and says how the run goes on. The cycle total
    /// must fit the machine word.
    pub fn after_instruction(self, outcome: Result<usize, HarnessError>, pc: u32) -> (r:
        RunProgress)
        requires
            outcome matches Ok(cycles) ==> self.total_cycles + cycles <= usize::MAX,
        ensures
            r == self.spec_after_instruction(outcome, pc),
    {
        match outcome {
            Err(e) => RunProgress::Finished(Err(e)),
            Ok(cycles) => {
                let total: usize = self.total_cycles + cycles;
                if pc == self.target_pc {
                    RunProgress::Finished(Ok(total))
                } else {
                    RunProgress::StepAgain(
                        RunUntil { target_pc: self.target_pc, total_cycles: total },
                    )
                }
            },
        }
    }
}

/// While memory is served, a reset sequence asks for another cycle until it
/// has had all of its cycles, and then ends well: not before, and whatever
/// happens after.
pub proof fn lemma_boot_takes_all_its_cycles(boot: BootSequence, served: Seq<bool>)
    requires
        boot.wf(),
        forall|i: int| 0 <= i < served.len() && boot.cycles + i < BOOT_CYCLES ==> #[trigger] served[i],
    ensures
        boot.replay(served) == (if boot.cycles + served.len() < BOOT_CYCLES {
            BootProgress::Advance(BootSequence { cycles: (boot.cycles + served.len()) as usize })
        } else {
            BootProgress::Finished(Ok(()))
        }),
    decreases served.len(),
{
    if served.len() > 0 {
        let rest = served.drop_first();
        assert(served[0]);
        match boot.spec_observe(served[0]) {
            BootProgress::Advance(next) => {
                assert forall|i: int|
                    0 <= i < rest.len() && next.cycles + i < BOOT_CYCLES implies #[trigger] rest[i] by {
                    assert(rest[i] == served[i + 1]);
                }
                lemma_boot_takes_all_its_cycles(next, rest);
            },
            BootProgress::Finished(_) => {},
        }
    }
}

/// A reset sequence fails at the first cycle during which memory was not
/// served, if that cycle is one of its own.
pub proof fn lemma_boot_fails_at_first_memory_failure(boot: BootSequence, served: Seq<bool>, k: int)
    requires
        boot.wf(),
        0 <= k < served.len(),
        boot.cycles + k < BOOT_CYCLES,
        forall|i: int| 0 <= i < k ==> #[trigger] served[i],
        !served[k],
    ensures
        boot.replay(served) == BootProgress::Finished(Err(HarnessError::MemoryAccess)),
    decreases k,
{
    if k > 0 {
        let rest = served.drop_first();
        let next = BootSequence { cycles: (boot.cycles + 1) as usize };
        assert(served[0]);
        assert(boot.spec_observe(served[0]) == BootProgress::Advance(next));
        assert forall|i: int| 0 <= i < k - 1 implies #[trigger] rest[i] by {
            assert(rest[i] == served[i + 1]);
        }
        assert(rest[k - 1] == served[k]);
        lemma_boot_fails_at_first_memory_failure(next, rest, k - 1);
    }
}

/// A cycle that neither failed nor moved the program counter off `entry_pc`.
pub open spec fn stalls(entry_pc: u32, report: CycleReport) -> bool {
    report.memory_ok && report.pc == entry_pc
}

/// While the program counter stays where it was and memory is served, a step
/// asks for another cycle below the limit and is given up at the limit: not
/// before it, and whatever the reports beyond it say.
pub proof fn lemma_stalled_step_ends_at_limit(step: InstructionStep, reports: Seq<CycleReport>)
    requires
        step.wf(),
        forall|i: int|
            0 <= i < reports.len() && step.cycles + i < INSTRUCTION_CYCLE_LIMIT ==> stalls(
                step.entry_pc,
                #[trigger] reports[i],
            ),
    ensures
        step.cycles + reports.len() < INSTRUCTION_CYCLE_LIMIT ==> step.replay(reports)
            == StepProgress::Advance(
            InstructionStep {
                entry_pc: step.entry_pc,
                cycles: (step.cycles + reports.len()) as usize,
            },
        ),
        step.cycles + reports.len() >= INSTRUCTION_CYCLE_LIMIT ==> step.replay(reports)
            == StepProgress::Finished(Err(HarnessError::InstructionDidNotComplete)),
    decreases reports.len(),
{
    if reports.len() > 0 {
        let rest = reports.drop_first();
        match step.spec_observe(reports[0]) {
            StepProgress::Advance(next) => {
                assert forall|i: int|
                    0 <= i < rest.len() && next.cycles + i
                        < INSTRUCTION_CYCLE_LIMIT implies stalls(
                    next.entry_pc,
                    #[trigger] rest[i],
                ) by {
                    assert(rest[i] == reports[i + 1]);
                }
                lemma_stalled_step_ends_at_limit(next, rest);
            },
            StepProgress::Finished(_) => {},
        }
    }
}

/// A step on a stream that never moves the program counter is given up after
/// exactly the limit's number of cycles.
pub proof fn lemma_stalled_stream_times_out(pc: u32, reports: Seq<CycleReport>)
    requires
        forall|i: int| 0 <= i < reports.len() ==> stalls(pc, #[trigger] reports[i]),
    ensures
        (InstructionStep { entry_pc: pc, cycles: 0 }).replay(reports) == (if reports.len()
            < INSTRUCTION_CYCLE_LIMIT {
            StepProgress::Advance(InstructionStep { entry_pc: pc, cycles: reports.len() as usize })
        } else {
            StepProgress::Finished(Err(HarnessError::InstructionDidNotComplete))
        }),
{
    lemma_stalled_step_ends_at_limit(InstructionStep { entry_pc: pc, cycles: 0 }, reports);
}

/// A step ends at the first cycle that does not stall, as long as that cycle
/// lies within the limit: with a memory failure if the cycle had one, else
/// with the number of cycles up to and including it.
pub proof fn lemma_step_ends_at_first_event(
    step: InstructionStep,
    reports: Seq<CycleReport>,
    k: int,
)
    requires
        step.wf(),
        0 <= k < reports.len(),
        step.cycles + k < INSTRUCTION_CYCLE_LIMIT,
        forall|i: int| 0 <= i < k ==> stalls(step.entry_pc, #[trigger] reports[i]),
        !stalls(step.entry_pc, reports[k]),
    ensures
        step.replay(reports) == StepProgress::Finished(
            if reports[k].memory_ok {
                Ok((step.cycles + k + 1) as usize)
            } else {
                Err(HarnessError::MemoryAccess)
            },
        ),
    decreases k,
{
    if k > 0 {
        let rest = reports.drop_first();
        let next = InstructionStep { entry_pc: step.entry_pc, cycles: (step.cycles + 1) as usize };
        assert(stalls(step.entry_pc, reports[0]));
        assert(step.spec_observe(reports[0]) == StepProgress::Advance(next));
        assert forall|i: int| 0 <= i < k - 1 implies stalls(next.entry_pc, #[trigger] rest[i]) by {
            assert(rest[i] == reports[i + 1]);
        }
        assert(rest[k - 1] == reports[k]);
        lemma_step_ends_at_first_event(next, rest, k - 1);
    }
}

/// An instruction that completed and left the program counter off `target_pc`.
pub open spec fn passes(target_pc: u32, instruction: (Result<usize, HarnessError>, u32)) -> bool {
    instruction.0 is Ok && instruction.1 != target_pc
}

/// Cycles that the completed instructions of a sequence took together.
pub open spec fn cycle_sum(instructions: Seq<(Result<usize, HarnessError>, u32)>) -> nat
    decreases instructions.len(),
{
    if instructions.len() == 0 {
        0
    } else {
        (match instructions[0].0 {
            Ok(cycles) => cycles as nat,
            Err(_) => 0,
        }) + cycle_sum(instructions.drop_first())
    }
}

/// While every instruction completes off the target, a run goes on and has
/// counted the cycles of them all.
pub proof fn lemma_run_goes_on(run: RunUntil, instructions: Seq<(Result<usize, HarnessError>, u32)>)
    requires
        forall|i: int| 0 <= i < instructions.len() ==> passes(run.target_pc, #[trigger] instructions[i]),
        run.total_cycles + cycle_sum(instructions) <= usize::MAX,
    ensures
        run.replay(instructions) == RunProgress::StepAgain(
            RunUntil {
                target_pc: run.target_pc,
                total_cycles: (run.total_cycles + cycle_sum(instructions)) as usize,
            },
        ),
    decreases instructions.len(),
{
    if instructions.len() > 0 {
        let rest = instructions.drop_first();
        assert(passes(run.target_pc, instructions[0]));
        let next = RunUntil {
            target_pc: run.target_pc,
            total_cycles: (run.total_cycles + instructions[0].0->Ok_0) as usize,
        };
        assert(run.spec_after_instruction(instructions[0].0, instructions[0].1)
            == RunProgress::StepAgain(next));
        assert forall|i: int| 0 <= i < rest.len() implies passes(
            next.target_pc,
            #[trigger] rest[i],
        ) by {
            assert(rest[i] == instructions[i + 1]);
        }
        lemma_run_goes_on(next, rest);
    }
}

/// A run ends at the first instruction that fails or leaves the program
/// counter at the target: with that instruction's failure, or with the cycles
/// of all instructions up to and including it.
pub proof fn lemma_run_ends_at_first_event(
    run: RunUntil,
    instructions: Seq<(Result<usize, HarnessError>, u32)>,
    k: int,
)
    requires
        0 <= k < instructions.len(),
        forall|i: int| 0 <= i < k ==> passes(run.target_pc, #[trigger] instructions[i]),
        !passes(run.target_pc, instructions[k]),
        run.total_cycles + cycle_sum(instructions.take(k + 1)) <= usize::MAX,
    ensures
        run.replay(instructions) == RunProgress::Finished(
            match instructions[k].0 {
                Ok(_) => Ok((run.total_cycles + cycle_sum(instructions.take(k + 1))) as usize),
                Err(e) => Err(e),
            },
        ),
    decreases k,
{
    let rest = instructions.drop_first();
    let counted = instructions.take(k + 1);
    assert(counted.drop_first() =~= rest.take(k));
    assert(counted[0] == instructions[0]);
    if k > 0 {
        assert(passes(run.target_pc, instructions[0]));
        let next = RunUntil {
            target_pc: run.target_pc,
            total_cycles: (run.total_cycles + instructions[0].0->Ok_0) as usize,
        };
        assert(run.spec_after_instruction(instructions[0].0, instructions[0].1)
            == RunProgress::StepAgain(next));
        assert forall|i: int| 0 <= i < k - 1 implies passes(next.target_pc, #[trigger] rest[i]) by {
            assert(rest[i] == instructions[i + 1]);
        }
        assert(rest[k - 1] == instructions[k]);
        lemma_run_ends_at_first_event(next, rest, k - 1);
    } else {
        assert(rest.take(0) =~= Seq::<(Result<usize, HarnessError>, u32)>::empty());
        assert(cycle_sum(rest.take(0)) == 0);
    }
}

} // verus!
