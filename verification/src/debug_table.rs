//! Debug metadata: the static map from bytecode indices to the source instructions
//! they were lowered from, and the bounded trace of recently executed indices.

use vstd::prelude::*;

use crate::bytecode::{
    lemma_lowered_len, lowerable, lowered, AsmInstruction, AsmInstructionView, Bytecode,
};

verus! {

/// Number of executed bytecode indices that a fresh trace remembers.
pub const DEFAULT_MAX_TRACE: usize = 20;

/// The bytecode of a sequence of instructions: their lowered sequences, in order.
pub open spec fn program_of(instructions: Seq<AsmInstructionView>) -> Seq<Bytecode>
    decreases instructions.len(),
{
    if instructions.len() == 0 {
        Seq::empty()
    } else {
        program_of(instructions.drop_last()) + lowered(instructions.last())
    }
}

/// The bytecode index at which instruction `k` starts: the lowered length of the
/// instructions before it.
pub open spec fn range_start(instructions: Seq<AsmInstructionView>, k: int) -> nat {
    program_of(instructions.take(k)).len()
}

/// Whether instruction `k` owns bytecode index `index`: the index lies in the
/// half-open range that the instruction's bytecode occupies.
pub open spec fn owns(instructions: Seq<AsmInstructionView>, k: int, index: int) -> bool {
    &&& 0 <= k < instructions.len()
    &&& range_start(instructions, k) <= index < range_start(instructions, k + 1)
}

/// The instruction that owns bytecode index `index`, if any.
pub open spec fn owner_of(instructions: Seq<AsmInstructionView>, index: int) -> Option<int> {
    if exists|k: int| owns(instructions, k, index) {
        Some(choose|k: int| owns(instructions, k, index))
    } else {
        None
    }
}

/// Whether every instruction of the sequence can be lowered.
pub open spec fn all_lowerable(instructions: Seq<AsmInstructionView>) -> bool {
    forall|k: int| 0 <= k < instructions.len() ==> lowerable(#[trigger] instructions[k])
}

/// Each instruction's range begins where the previous one ends and holds its
/// lowered bytecode.
pub proof fn lemma_range_step(instructions: Seq<AsmInstructionView>, k: int)
    requires
        0 <= k < instructions.len(),
    ensures
        range_start(instructions, 0) == 0,
        range_start(instructions, k + 1) == range_start(instructions, k) + lowered(
            instructions[k],
        ).len(),
        program_of(instructions.take(k + 1)) == program_of(instructions.take(k)) + lowered(
            instructions[k],
        ),
        range_start(instructions, instructions.len() as int) == program_of(instructions).len(),
{
    assert(instructions.take(k + 1).drop_last() =~= instructions.take(k));
    assert(instructions.take(k + 1).last() == instructions[k]);
    assert(instructions.take(instructions.len() as int) =~= instructions);
    assert(instructions.take(0).len() == 0);
}

/// Range starts grow with the instruction number, strictly so where the
/// instructions are lowerable.
pub proof fn lemma_range_monotonic(instructions: Seq<AsmInstructionView>, i: int, j: int)
    requires
        0 <= i <= j <= instructions.len(),
        all_lowerable(instructions),
    ensures
        range_start(instructions, i) + (j - i) <= range_start(instructions, j),
    decreases j - i,
{
    if i < j {
        lemma_range_monotonic(instructions, i, j - 1);
        lemma_range_step(instructions, j - 1);
        assert(lowerable(instructions[j - 1]));
    }
}

/// The ranges partition the bytecode index space: every index below the program's
/// length has exactly one owner, and no index from the length on has any.
pub proof fn lemma_one_owner(instructions: Seq<AsmInstructionView>, index: int)
    requires
        all_lowerable(instructions),
    ensures
        owner_of(instructions, index) is Some <==> 0 <= index < program_of(instructions).len(),
        forall|k: int| owns(instructions, k, index) <==> owner_of(instructions, index) == Some(k),
{
    let n = instructions.len() as int;
    assert forall|a: int, b: int| owns(instructions, a, index) && owns(instructions, b, index)
        implies a == b by {
        if a < b {
            lemma_range_monotonic(instructions, a + 1, b);
        }
        if b < a {
            lemma_range_monotonic(instructions, b + 1, a);
        }
    }
    assert forall|k: int| owns(instructions, k, index) implies 0 <= index < program_of(
        instructions,
    ).len() by {
        lemma_range_monotonic(instructions, k + 1, n);
        lemma_range_step(instructions, k);
    }
    if 0 <= index < program_of(instructions).len() {
        assert(instructions.take(n) =~= instructions);
        lemma_owner_exists(instructions, index, n);
    }
}

/// The program of the first `k` instructions is the beginning of the whole
/// program, up to the start of instruction `k`.
pub proof fn lemma_program_prefix(instructions: Seq<AsmInstructionView>, k: int)
    requires
        0 <= k <= instructions.len(),
    ensures
        range_start(instructions, k) <= program_of(instructions).len(),
        program_of(instructions.take(k)) == program_of(instructions).take(
            range_start(instructions, k) as int,
        ),
    decreases instructions.len() - k,
{
    if k < instructions.len() {
        lemma_program_prefix(instructions, k + 1);
        lemma_range_step(instructions, k);
        assert(program_of(instructions.take(k)) =~= program_of(instructions.take(k + 1)).take(
            range_start(instructions, k) as int,
        ));
        assert(program_of(instructions).take(range_start(instructions, k + 1) as int).take(
            range_start(instructions, k) as int,
        ) =~= program_of(instructions).take(range_start(instructions, k) as int));
    } else {
        assert(instructions.take(k) =~= instructions);
        assert(program_of(instructions).take(program_of(instructions).len() as int)
            =~= program_of(instructions));
    }
}

/// The range of an instruction holds that instruction's bytecode: the program,
/// cut to the range of instruction `k`, is what instruction `k` lowers to.
pub proof fn lemma_range_holds_lowered(instructions: Seq<AsmInstructionView>, k: int)
    requires
        0 <= k < instructions.len(),
    ensures
        range_start(instructions, k) <= range_start(instructions, k + 1) <= program_of(
            instructions,
        ).len(),
        program_of(instructions).subrange(
            range_start(instructions, k) as int,
            range_start(instructions, k + 1) as int,
        ) == lowered(instructions[k]),
{
    lemma_program_prefix(instructions, k);
    lemma_program_prefix(instructions, k + 1);
    lemma_range_step(instructions, k);
    let whole = program_of(instructions);
    let from = range_start(instructions, k) as int;
    let to = range_start(instructions, k + 1) as int;
    assert(whole.subrange(from, to) =~= whole.take(to).skip(from));
    assert((program_of(instructions.take(k)) + lowered(instructions[k])).skip(from) =~= lowered(
        instructions[k],
    ));
}

/// Below the start of instruction `upto`, every index has an owner.
proof fn lemma_owner_exists(instructions: Seq<AsmInstructionView>, index: int, upto: int)
    requires
        0 <= upto <= instructions.len(),
        0 <= index < range_start(instructions, upto),
    ensures
        exists|k: int| owns(instructions, k, index),
    decreases upto,
{
    if upto == 0 {
        assert(instructions.take(0).len() == 0);
    } else {
        lemma_range_step(instructions, upto - 1);
        if index < range_start(instructions, upto - 1) {
            lemma_owner_exists(instructions, index, upto - 1);
        } else {
            assert(owns(instructions, upto - 1, index));
        }
    }
}

/// The program of the first `k` instructions is no longer than the whole program.
proof fn lemma_total_bounds(instructions: Seq<AsmInstructionView>, k: int)
    requires
        0 <= k <= instructions.len(),
    ensures
        range_start(instructions, k) <= program_of(instructions).len(),
    decreases instructions.len() - k,
{
    if k < instructions.len() {
        lemma_range_step(instructions, k);
        lemma_total_bounds(instructions, k + 1);
    } else {
        assert(instructions.take(k) =~= instructions);
    }
}

/// A half-open range of bytecode indices.
#[derive(Debug)]
struct LineRange {
    start: usize,
    end: usize,
}

/// One source instruction with the range and the bytecode it was lowered to.
#[derive(Debug)]
struct DebugEntry {
    range: LineRange,
    instruction: AsmInstruction,
    bytecode: Vec<Bytecode>,
}

/// Whether the entries' ranges are in ascending order.
spec fn entries_sorted(entries: Seq<DebugEntry>) -> bool {
    forall|i: int, j: int|
        0 <= i <= j < entries.len() ==> (#[trigger] entries[i]).range.start <= (
        #[trigger] entries[j]).range.start && entries[i].range.end <= entries[j].range.end
}

/// For every bytecode index of a compiled program, the source instruction that it
/// was lowered from.  Viewed as the sequence of source instructions.
#[derive(Debug)]
pub struct CompileDebugInfo {
    entries: Vec<DebugEntry>,
}

impl View for CompileDebugInfo {
    type V = Seq<AsmInstructionView>;

    closed spec fn view(&self) -> Seq<AsmInstructionView> {
        Seq::new(self.entries@.len(), |k: int| self.entries@[k].instruction@)
    }
}

impl CompileDebugInfo {
    /// The ranges are those of the instructions, in order and without gaps.
    pub closed spec fn wf(&self) -> bool {
        &&& all_lowerable(self@)
        &&& forall|k: int|
            0 <= k < self.entries@.len() ==> {
                &&& (#[trigger] self.entries@[k]).range.start == range_start(self@, k)
                &&& self.entries@[k].range.end == range_start(self@, k + 1)
                &&& self.entries@[k].bytecode@ == lowered(self@[k])
            }
    }

    /// What consistent debug info has: instructions that can be lowered, to a
    /// program that an index can count.
    pub proof fn lemma_wf(&self)
        requires
            self.wf(),
        ensures
            all_lowerable(self@),
            program_of(self@).len() <= usize::MAX,
    {
        let n = self.entries@.len() as int;
        if n == 0 {
            assert(self@ =~= Seq::empty());
        } else {
            lemma_range_step(self@, n - 1);
            assert(self.entries@[n - 1].range.end == range_start(self@, n));
        }
    }

    /// Later entries start and end no earlier than earlier ones.
    proof fn lemma_entries_sorted(&self)
        requires
            self.wf(),
        ensures
            entries_sorted(self.entries@),
    {
        assert forall|i: int, j: int| 0 <= i <= j < self.entries@.len() implies (
        #[trigger] self.entries@[i]).range.start <= (#[trigger] self.entries@[j]).range.start
            && self.entries@[i].range.end <= self.entries@[j].range.end by {
            lemma_range_monotonic(self@, i, j);
            lemma_range_monotonic(self@, i + 1, j + 1);
        }
    }

    /// Lowers each instruction and records the range that its bytecode occupies.
    pub fn new(asm_instructions: Vec<AsmInstruction>) -> (info: CompileDebugInfo)
        requires
            all_lowerable(asm_instructions@.map_values(|i: AsmInstruction| i@)),
            program_of(asm_instructions@.map_values(|i: AsmInstruction| i@)).len() <= usize::MAX,
        ensures
            info.wf(),
            info@ == asm_instructions@.map_values(|i: AsmInstruction| i@),
    {
        let ghost all = asm_instructions@.map_values(|i: AsmInstruction| i@);
        let mut entries: Vec<DebugEntry> = Vec::new();
        let mut index: usize = 0;
        let mut n: usize = 0;
        while n < asm_instructions.len()
            invariant
                all == asm_instructions@.map_values(|i: AsmInstruction| i@),
                all_lowerable(all),
                program_of(all).len() <= usize::MAX,
                n <= asm_instructions.len(),
                entries@.len() == n,
                index == range_start(all, n as int),
                forall|k: int|
                    0 <= k < n ==> {
                        &&& (#[trigger] entries@[k]).instruction@ == all[k]
                        &&& entries@[k].range.start == range_start(all, k)
                        &&& entries@[k].range.end == range_start(all, k + 1)
                        &&& entries@[k].bytecode@ == lowered(all[k])
                    },
            decreases asm_instructions.len() - n,
        {
            let instruction = asm_instructions[n].clone();
            assert(instruction@ == all[n as int]);
            assert(lowerable(all[n as int]));
            let bytecode = instruction.to_bytecode();
            proof {
                lemma_range_step(all, n as int);
                lemma_range_monotonic(all, n as int + 1, all.len() as int);
                lemma_range_step(all, all.len() - 1);
            }
            let end = index + bytecode.len();
            entries.push(DebugEntry { range: LineRange { start: index, end }, instruction, bytecode });
            index = end;
            n += 1;
        }
        let info = CompileDebugInfo { entries };
        assert(info@ =~= all);
        info
    }

    /// As [`CompileDebugInfo::new`], for instructions of which nothing is known:
    /// `None` where an instruction cannot be lowered or the lowered program would
    /// be longer than an index can count.
    pub fn checked_new(asm_instructions: Vec<AsmInstruction>) -> (r: Option<CompileDebugInfo>)
        ensures
            match r {
                Some(info) => info.wf() && info@ == asm_instructions@.map_values(
                    |i: AsmInstruction| i@,
                ),
                None => true,
            },
            r is Some <==> all_lowerable(asm_instructions@.map_values(|i: AsmInstruction| i@))
                && program_of(asm_instructions@.map_values(|i: AsmInstruction| i@)).len()
                <= usize::MAX,
    {
        let ghost all = asm_instructions@.map_values(|i: AsmInstruction| i@);
        let mut total: usize = 0;
        let mut n: usize = 0;
        while n < asm_instructions.len()
            invariant
                all == asm_instructions@.map_values(|i: AsmInstruction| i@),
                n <= asm_instructions.len(),
                all_lowerable(all.take(n as int)),
                total == range_start(all, n as int),
            decreases asm_instructions.len() - n,
        {
            let instruction = &asm_instructions[n];
            assert(instruction@ == all[n as int]);
            if !instruction.is_lowerable() {
                return None;
            }
            proof {
                lemma_range_step(all, n as int);
                lemma_lowered_len(all[n as int]);
            }
            let width: usize = match instruction {
                AsmInstruction::LI(_, _) => 2,
                AsmInstruction::ADD(_, _, _) => 4,
                AsmInstruction::JUMP(_) => 1,
            };
            assert(width == lowered(all[n as int]).len());
            match total.checked_add(width) {
                Some(sum) => {
                    total = sum;
                },
                None => {
                    proof {
                        lemma_total_bounds(all, n as int + 1);
                    }
                    return None;
                },
            }
            n += 1;
            assert(all_lowerable(all.take(n as int))) by {
                assert forall|k: int| 0 <= k < n implies lowerable(#[trigger] all.take(n as int)[k]) by {
                    if k < n - 1 {
                        assert(all.take(n as int - 1)[k] == all[k]);
                    }
                }
            }
        }
        assert(all.take(n as int) =~= all);
        Some(CompileDebugInfo::new(asm_instructions))
    }

    /// The source instructions, in order.
    pub fn instructions(&self) -> (r: Vec<AsmInstruction>)
        ensures
            r@.map_values(|i: AsmInstruction| i@) == self@,
    {
        let mut out: Vec<AsmInstruction> = Vec::new();
        let mut n: usize = 0;
        while n < self.entries.len()
            invariant
                n <= self.entries@.len(),
                out@.len() == n,
                forall|k: int| 0 <= k < n ==> (#[trigger] out@[k])@ == self@[k],
            decreases self.entries.len() - n,
        {
            out.push(self.entries[n].instruction.clone());
            n += 1;
        }
        assert(out@.map_values(|i: AsmInstruction| i@) =~= self@);
        out
    }

    /// Number of source instructions.
    pub fn len(&self) -> (n: usize)
        ensures
            n == self@.len(),
    {
        self.entries.len()
    }

    /// Number of bytecode indices that have an owner: the length of the lowered
    /// program, not counting a terminator.
    pub fn bytecode_len(&self) -> (n: usize)
        requires
            self.wf(),
        ensures
            n == program_of(self@).len(),
    {
        let count = self.entries.len();
        if count == 0 {
            assert(self@ =~= Seq::empty());
            0
        } else {
            proof {
                lemma_range_step(self@, count as int - 1);
            }
            self.entries[count - 1].range.end
        }
    }

    /// The source instruction that owns bytecode index `bytecode_number`, with its
    /// lowered bytecode; `None` from the end of the last range on.
    pub fn get(&self, bytecode_number: usize) -> (r: Option<(AsmInstruction, Vec<Bytecode>)>)
        requires
            self.wf(),
        ensures
            match r {
                Some(found) => {
                    &&& owner_of(self@, bytecode_number as int) matches Some(k)
                    &&& found.0@ == self@[k]
                    &&& found.1@ == lowered(self@[k])
                },
                None => owner_of(self@, bytecode_number as int) is None,
            },
            r is Some <==> bytecode_number < program_of(self@).len(),
    {
        proof {
            lemma_one_owner(self@, bytecode_number as int);
            self.lemma_entries_sorted();
        }
        let mut lo: usize = 0;
        let mut hi: usize = self.entries.len();
        while lo < hi
            invariant
                self.wf(),
                lo <= hi <= self.entries@.len(),
                entries_sorted(self.entries@),
                forall|k: int| 0 <= k < lo ==> (#[trigger] self.entries@[k]).range.end <= bytecode_number,
                forall|k: int|
                    hi <= k < self.entries@.len() ==> bytecode_number < (
                    #[trigger] self.entries@[k]).range.start,
            decreases hi - lo,
        {
            let mid = lo + (hi - lo) / 2;
            let entry = &self.entries[mid];
            if bytecode_number < entry.range.start {
                hi = mid;
            } else if bytecode_number >= entry.range.end {
                lo = mid + 1;
            } else {
                proof {
                    assert(owns(self@, mid as int, bytecode_number as int));
                    lemma_one_owner(self@, bytecode_number as int);
                }
                let bytecode = entry.bytecode.clone();
                assert(bytecode@ =~= entry.bytecode@);
                return Some((entry.instruction.clone(), bytecode));
            }
        }
        assert forall|k: int| !owns(self@, k, bytecode_number as int) by {
            if 0 <= k < self.entries@.len() {
                let entry = self.entries@[k];
                assert(entry.range.end <= bytecode_number || bytecode_number < entry.range.start);
            }
        }
        None
    }
}

/// The source instructions of the traced bytecode indices, most recent first.
/// Indices that no instruction owns are left out.
pub open spec fn recent_first(
    instructions: Seq<AsmInstructionView>,
    trace: Seq<usize>,
) -> Seq<AsmInstructionView>
    decreases trace.len(),
{
    if trace.len() == 0 {
        Seq::empty()
    } else {
        let newer = recent_first(instructions, trace.drop_first());
        match owner_of(instructions, trace[0] as int) {
            Some(k) => newer.push(instructions[k]),
            None => newer,
        }
    }
}

/// Drops every element that equals the one before it, so that a run of repeats is
/// shown once.
pub open spec fn collapsed(shown: Seq<AsmInstructionView>) -> Seq<AsmInstructionView>
    decreases shown.len(),
{
    if shown.len() == 0 {
        Seq::empty()
    } else {
        let before = collapsed(shown.drop_last());
        if shown.len() >= 2 && shown[shown.len() - 2] == shown.last() {
            before
        } else {
            before.push(shown.last())
        }
    }
}

/// The new trace after `index` was executed: the oldest entry leaves once the
/// trace is full.
pub open spec fn pushed(trace: Seq<usize>, max_trace: usize, index: usize) -> Seq<usize> {
    if trace.len() >= max_trace {
        trace.drop_first().push(index)
    } else {
        trace.push(index)
    }
}

/// The live execution trace of a machine: the most recently executed bytecode
/// indices, oldest first, beside the debug info that resolves them.
#[derive(Debug)]
pub struct RuntimeDebugInfo {
    compile_debug_info: CompileDebugInfo,
    max_trace: usize,
    stack_trace: Vec<usize>,
}

/// What a [`RuntimeDebugInfo`] holds, as mathematical values.
#[verifier::ext_equal]
pub struct RuntimeDebugInfoView {
    /// The source instructions of the attached debug info.
    pub instructions: Seq<AsmInstructionView>,
    /// How many indices the trace remembers.
    pub max_trace: usize,
    /// The remembered indices, oldest first.
    pub trace: Seq<usize>,
}

impl View for RuntimeDebugInfo {
    type V = RuntimeDebugInfoView;

    closed spec fn view(&self) -> RuntimeDebugInfoView {
        RuntimeDebugInfoView {
            instructions: self.compile_debug_info@,
            max_trace: self.max_trace,
            trace: self.stack_trace@,
        }
    }
}

impl RuntimeDebugInfo {
    /// The trace is within its bound and the attached debug info is consistent.
    pub closed spec fn wf(&self) -> bool {
        &&& self.compile_debug_info.wf()
        &&& 0 < self.max_trace
        &&& self.stack_trace@.len() <= self.max_trace
    }

    /// What a consistent trace has.
    pub proof fn lemma_wf(&self)
        requires
            self.wf(),
        ensures
            all_lowerable(self@.instructions),
            program_of(self@.instructions).len() <= usize::MAX,
            0 < self@.max_trace,
            self@.trace.len() <= self@.max_trace,
    {
        self.compile_debug_info.lemma_wf();
    }

    /// An empty trace that remembers [`DEFAULT_MAX_TRACE`] indices, with no debug
    /// info attached.
    pub fn new() -> (info: RuntimeDebugInfo)
        ensures
            info.wf(),
            info@.instructions.len() == 0,
            info@.max_trace == DEFAULT_MAX_TRACE,
            info@.trace.len() == 0,
    {
        RuntimeDebugInfo {
            compile_debug_info: CompileDebugInfo::new(Vec::new()),
            max_trace: DEFAULT_MAX_TRACE,
            stack_trace: Vec::new(),
        }
    }

    /// A trace with the given contents, or `None` where `max_trace` is zero or the
    /// trace is longer than `max_trace`.
    pub fn from_parts(
        compile_debug_info: CompileDebugInfo,
        max_trace: usize,
        stack_trace: Vec<usize>,
    ) -> (r: Option<RuntimeDebugInfo>)
        requires
            compile_debug_info.wf(),
        ensures
            match r {
                Some(info) => info.wf() && info@ == (RuntimeDebugInfoView {
                    instructions: compile_debug_info@,
                    max_trace,
                    trace: stack_trace@,
                }),
                None => true,
            },
            r is Some <==> 0 < max_trace && stack_trace@.len() <= max_trace,
    {
        if max_trace == 0 || stack_trace.len() > max_trace {
            return None;
        }
        Some(RuntimeDebugInfo { compile_debug_info, max_trace, stack_trace })
    }

    /// Replaces the debug info that resolves the trace.
    pub fn attach_compile_debug_info(&mut self, compile_debug_info: CompileDebugInfo)
        requires
            old(self).wf(),
            compile_debug_info.wf(),
        ensures
            final(self).wf(),
            final(self)@ == (RuntimeDebugInfoView {
                instructions: compile_debug_info@,
                ..old(self)@
            }),
    {
        self.compile_debug_info = compile_debug_info;
    }

    /// The debug info that resolves the trace.
    pub fn compile_debug_info(&self) -> (info: &CompileDebugInfo)
        requires
            self.wf(),
        ensures
            info.wf(),
            info@ == self@.instructions,
    {
        &self.compile_debug_info
    }

    /// The remembered bytecode indices, oldest first.
    pub fn stack_trace(&self) -> (trace: &Vec<usize>)
        ensures
            trace@ == self@.trace,
    {
        &self.stack_trace
    }

    /// How many indices the trace remembers.
    pub fn max_trace(&self) -> (n: usize)
        ensures
            n == self@.max_trace,
    {
        self.max_trace
    }

    /// Records that bytecode index `line_number` was executed, evicting the oldest
    /// entry if the trace is full.
    pub fn push_stack_trace(&mut self, line_number: usize)
        requires
            old(self).wf(),
        ensures
            final(self).wf(),
            final(self)@ == (RuntimeDebugInfoView {
                trace: pushed(old(self)@.trace, old(self)@.max_trace, line_number),
                ..old(self)@
            }),
            final(self)@.trace.len() <= final(self)@.max_trace,
    {
        if self.stack_trace.len() >= self.max_trace {
            self.stack_trace.remove(0);
            assert(self.stack_trace@ =~= old(self).stack_trace@.drop_first());
        }
        self.stack_trace.push(line_number);
    }

    /// What a fatal error shows: the source instructions behind the trace, most
    /// recent first, each with its bytecode, a run of equal instructions shown once.
    pub fn render(&self) -> (shown: Vec<(AsmInstruction, Vec<Bytecode>)>)
        requires
            self.wf(),
        ensures
            shown@.len() == collapsed(recent_first(self@.instructions, self@.trace)).len(),
            forall|j: int|
                0 <= j < shown@.len() ==> {
                    &&& (#[trigger] shown@[j]).0@ == collapsed(
                        recent_first(self@.instructions, self@.trace),
                    )[j]
                    &&& shown@[j].1@ == lowered(shown@[j].0@)
                },
    {
        let ghost instructions = self.compile_debug_info@;
        let ghost trace = self.stack_trace@;
        let mut shown: Vec<(AsmInstruction, Vec<Bytecode>)> = Vec::new();
        let mut previous: Option<AsmInstruction> = None;
        let mut i: usize = self.stack_trace.len();
        assert(trace.subrange(i as int, trace.len() as int) =~= Seq::empty());
        while i > 0
            invariant
                self.wf(),
                instructions == self.compile_debug_info@,
                trace == self.stack_trace@,
                i <= trace.len(),
                shown@.len() == collapsed(
                    recent_first(instructions, trace.subrange(i as int, trace.len() as int)),
                ).len(),
                forall|j: int|
                    0 <= j < shown@.len() ==> {
                        &&& (#[trigger] shown@[j]).0@ == collapsed(
                            recent_first(instructions, trace.subrange(i as int, trace.len() as int)),
                        )[j]
                        &&& shown@[j].1@ == lowered(shown@[j].0@)
                    },
                match previous {
                    Some(p) => {
                        let recent = recent_first(
                            instructions,
                            trace.subrange(i as int, trace.len() as int),
                        );
                        recent.len() > 0 && p@ == recent.last()
                    },
                    None => recent_first(
                        instructions,
                        trace.subrange(i as int, trace.len() as int),
                    ).len() == 0,
                },
            decreases i,
        {
            let ghost newer = trace.subrange(i as int, trace.len() as int);
            i -= 1;
            let ghost current = trace.subrange(i as int, trace.len() as int);
            assert(current.drop_first() =~= newer);
            assert(current[0] == trace[i as int]);
            match self.compile_debug_info.get(self.stack_trace[i]) {
                Some((instruction, bytecode)) => {
                    let ghost recent = recent_first(instructions, current);
                    assert(recent.drop_last() =~= recent_first(instructions, newer));
                    assert(recent.last() == instruction@);
                    let repeated = match &previous {
                        Some(p) => *p == instruction,
                        None => false,
                    };
                    if !repeated {
                        shown.push((instruction.clone(), bytecode));
                    }
                    previous = Some(instruction);
                },
                None => {},
            }
        }
        assert(trace.subrange(0, trace.len() as int) =~= trace);
        shown
    }
}

} // verus!
