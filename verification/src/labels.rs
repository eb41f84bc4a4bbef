//! Label resolution: jumps that name a label become jumps to the bytecode index
//! at which the labelled instruction begins.
//!
//! Resolution takes two passes.  The first computes, for every label, the
//! bytecode index of the instruction that it stands before, by summing the lowered
//! lengths of the instructions before it.  The second substitutes those indices
//! for the labels in the jumps.

use vstd::prelude::*;

use crate::bytecode::{
    lowerable, lowered, AsmInstruction, AsmInstructionView, WhereTo, WhereToView,
};
use crate::debug_table::{all_lowerable, lemma_range_step, range_start};

verus! {

/// A label: a name for the place before instruction `index` of a program.  A
/// label behind the last instruction has the program's length for its index.
#[derive(Debug)]
pub struct Label {
    pub name: String,
    pub index: usize,
}

/// What a [`Label`] holds, as mathematical values.
pub struct LabelView {
    pub name: Seq<char>,
    pub index: int,
}

impl View for Label {
    type V = LabelView;

    open spec fn view(&self) -> LabelView {
        LabelView { name: self.name@, index: self.index as int }
    }
}

impl Clone for Label {
    fn clone(&self) -> (r: Self)
        ensures
            r == *self,
    {
        Label { name: self.name.clone(), index: self.index }
    }
}

/// Number of bytecode operations that an instruction lowers to, whether or not its
/// jump target is resolved yet.
pub open spec fn slot_len(ins: AsmInstructionView) -> nat {
    match ins {
        AsmInstructionView::LI(_, _) => 2,
        AsmInstructionView::ADD(_, _, _) => 4,
        AsmInstructionView::JUMP(_) => 1,
    }
}

/// The bytecode index at which instruction `k` begins: the lowered lengths of the
/// instructions before it, summed.
pub open spec fn slot_start(instructions: Seq<AsmInstructionView>, k: int) -> nat
    decreases k,
{
    if k <= 0 || k > instructions.len() {
        0
    } else {
        slot_start(instructions, k - 1) + slot_len(instructions[k - 1])
    }
}

/// The bytecode index that the label called `name` stands for: that of the first
/// label of that name.  `None` where there is no such label, where it lies
/// outside the program, or where its index does not fit a jump.
pub open spec fn label_target(
    instructions: Seq<AsmInstructionView>,
    labels: Seq<LabelView>,
    name: Seq<char>,
) -> Option<u32>
    decreases labels.len(),
{
    if labels.len() == 0 {
        None
    } else if labels[0].name == name {
        if 0 <= labels[0].index <= instructions.len() && slot_start(
            instructions,
            labels[0].index,
        ) <= u32::MAX {
            Some(slot_start(instructions, labels[0].index) as u32)
        } else {
            None
        }
    } else {
        label_target(instructions, labels.drop_first(), name)
    }
}

/// An instruction with its label, if it jumps to one, replaced by the label's
/// bytecode index; `None` where the label cannot be resolved.
pub open spec fn resolved_one(
    ins: AsmInstructionView,
    instructions: Seq<AsmInstructionView>,
    labels: Seq<LabelView>,
) -> Option<AsmInstructionView> {
    match ins {
        AsmInstructionView::JUMP(WhereToView::Label(name)) => match label_target(
            instructions,
            labels,
            name,
        ) {
            Some(line) => Some(AsmInstructionView::JUMP(WhereToView::Line(line))),
            None => None,
        },
        _ => Some(ins),
    }
}

/// Whether the first `upto` instructions can all be resolved.
pub open spec fn resolvable(
    instructions: Seq<AsmInstructionView>,
    labels: Seq<LabelView>,
    upto: int,
) -> bool {
    forall|k: int|
        0 <= k < upto ==> resolved_one(#[trigger] instructions[k], instructions, labels) is Some
}

/// Resolution changes no instruction's length, so every instruction begins at
/// the same bytecode index before and after.
pub proof fn lemma_resolution_keeps_layout(
    instructions: Seq<AsmInstructionView>,
    labels: Seq<LabelView>,
    out: Seq<AsmInstructionView>,
    k: int,
)
    requires
        out.len() == instructions.len(),
        forall|j: int|
            0 <= j < out.len() ==> Some(#[trigger] out[j]) == resolved_one(
                instructions[j],
                instructions,
                labels,
            ),
        0 <= k <= out.len(),
    ensures
        slot_start(out, k) == slot_start(instructions, k),
    decreases k,
{
    if k > 0 {
        lemma_resolution_keeps_layout(instructions, labels, out, k - 1);
        assert(Some(out[k - 1]) == resolved_one(instructions[k - 1], instructions, labels));
    }
}

/// Where every instruction can be lowered, the summed lengths are the starts of
/// the instructions' ranges in the lowered program.
pub proof fn lemma_slot_start_is_range_start(instructions: Seq<AsmInstructionView>, k: int)
    requires
        all_lowerable(instructions),
        0 <= k <= instructions.len(),
    ensures
        slot_start(instructions, k) == range_start(instructions, k),
    decreases k,
{
    if k > 0 {
        lemma_slot_start_is_range_start(instructions, k - 1);
        lemma_range_step(instructions, k - 1);
        assert(lowerable(instructions[k - 1]));
        assert(slot_len(instructions[k - 1]) == lowered(instructions[k - 1]).len());
    } else {
        assert(instructions.take(0) =~= Seq::<AsmInstructionView>::empty());
    }
}

/// First pass: the bytecode index at which each instruction begins, and behind
/// them the length of the whole program.  An index that does not fit a jump is
/// `None`.
pub fn collect_offsets(instructions: &Vec<AsmInstruction>) -> (offsets: Vec<Option<u32>>)
    ensures
        offsets@.len() == instructions@.len() + 1,
        forall|k: int|
            0 <= k <= instructions@.len() ==> #[trigger] offsets@[k] == fitting(
                slot_start(instructions@.map_values(|i: AsmInstruction| i@), k),
            ),
{
    let ghost all = instructions@.map_values(|i: AsmInstruction| i@);
    let mut offsets: Vec<Option<u32>> = Vec::new();
    let mut total: Option<u32> = Some(0);
    offsets.push(total);
    let mut n: usize = 0;
    while n < instructions.len()
        invariant
            all == instructions@.map_values(|i: AsmInstruction| i@),
            n <= instructions@.len(),
            offsets@.len() == n + 1,
            total == fitting(slot_start(all, n as int)),
            forall|k: int| 0 <= k <= n ==> #[trigger] offsets@[k] == fitting(slot_start(all, k)),
        decreases instructions.len() - n,
    {
        let width: u32 = match &instructions[n] {
            AsmInstruction::LI(_, _) => 2,
            AsmInstruction::ADD(_, _, _) => 4,
            AsmInstruction::JUMP(_) => 1,
        };
        assert(width == slot_len(all[n as int]));
        total = match total {
            Some(sum) => sum.checked_add(width),
            None => None,
        };
        offsets.push(total);
        n += 1;
    }
    offsets
}

/// `index` as a jump target, if it fits one.
pub open spec fn fitting(index: nat) -> Option<u32> {
    if index <= u32::MAX {
        Some(index as u32)
    } else {
        None
    }
}

/// Looks a label up: the bytecode index that the first label called `name`
/// stands for.
fn find_label(labels: &Vec<Label>, offsets: &Vec<Option<u32>>, name: &String, Ghost(
    all,
): Ghost<Seq<AsmInstructionView>>) -> (r: Option<u32>)
    requires
        offsets@.len() == all.len() + 1,
        forall|k: int| 0 <= k <= all.len() ==> #[trigger] offsets@[k] == fitting(slot_start(all, k)),
    ensures
        r == label_target(all, labels@.map_values(|l: Label| l@), name@),
{
    let ghost views = labels@.map_values(|l: Label| l@);
    let mut n: usize = 0;
    assert(views.skip(0) =~= views);
    while n < labels.len()
        invariant
            views == labels@.map_values(|l: Label| l@),
            n <= labels@.len(),
            offsets@.len() == all.len() + 1,
            forall|k: int|
                0 <= k <= all.len() ==> #[trigger] offsets@[k] == fitting(slot_start(all, k)),
            label_target(all, views, name@) == label_target(all, views.skip(n as int), name@),
        decreases labels.len() - n,
    {
        let label = &labels[n];
        assert(views.skip(n as int)[0] == label@);
        assert(views.skip(n as int).drop_first() =~= views.skip(n as int + 1));
        if label.name == *name {
            if label.index < offsets.len() {
                return offsets[label.index];
            }
            return None;
        }
        n += 1;
    }
    None
}

/// Resolves the labels of a program.  Returns the program with every jump to a
/// label turned into a jump to the label's bytecode index, or the name of the
/// first label, in program order, that cannot be resolved.
pub fn resolve_labels(instructions: Vec<AsmInstruction>, labels: &Vec<Label>) -> (r: Result<
    Vec<AsmInstruction>,
    String,
>)
    ensures
        match r {
            Ok(out) => {
                &&& out@.len() == instructions@.len()
                &&& forall|k: int|
                    0 <= k < out@.len() ==> Some((#[trigger] out@[k])@) == resolved_one(
                        instructions@[k]@,
                        instructions@.map_values(|i: AsmInstruction| i@),
                        labels@.map_values(|l: Label| l@),
                    )
            },
            Err(name) => exists|k: int|
                {
                    &&& 0 <= k < instructions@.len()
                    &&& resolvable(
                        instructions@.map_values(|i: AsmInstruction| i@),
                        labels@.map_values(|l: Label| l@),
                        k,
                    )
                    &&& #[trigger] instructions@[k]@ == AsmInstructionView::JUMP(
                        WhereToView::Label(name@),
                    )
                    &&& label_target(
                        instructions@.map_values(|i: AsmInstruction| i@),
                        labels@.map_values(|l: Label| l@),
                        name@,
                    ) is None
                },
        },
{
    let ghost all = instructions@.map_values(|i: AsmInstruction| i@);
    let ghost views = labels@.map_values(|l: Label| l@);
    let offsets = collect_offsets(&instructions);
    let mut out: Vec<AsmInstruction> = Vec::new();
    let mut n: usize = 0;
    while n < instructions.len()
        invariant
            all == instructions@.map_values(|i: AsmInstruction| i@),
            views == labels@.map_values(|l: Label| l@),
            n <= instructions@.len(),
            out@.len() == n,
            offsets@.len() == all.len() + 1,
            forall|k: int|
                0 <= k <= all.len() ==> #[trigger] offsets@[k] == fitting(slot_start(all, k)),
            forall|k: int|
                0 <= k < n ==> Some((#[trigger] out@[k])@) == resolved_one(
                    instructions@[k]@,
                    all,
                    views,
                ),
        decreases instructions.len() - n,
    {
        let instruction = &instructions[n];
        assert(all[n as int] == instruction@);
        let resolved = match instruction {
            AsmInstruction::JUMP(WhereTo::Label(name)) => {
                match find_label(labels, &offsets, name, Ghost(all)) {
                    Some(line) => AsmInstruction::JUMP(WhereTo::Line(line)),
                    None => {
                        assert(resolvable(all, views, n as int)) by {
                            assert forall|k: int| 0 <= k < n implies resolved_one(
                                #[trigger] all[k],
                                all,
                                views,
                            ) is Some by {
                                assert(Some(out@[k]@) == resolved_one(instructions@[k]@, all, views));
                            }
                        }
                        return Err(name.clone());
                    },
                }
            },
            _ => instruction.clone(),
        };
        out.push(resolved);
        n += 1;
    }
    Ok(out)
}

} // verus!
