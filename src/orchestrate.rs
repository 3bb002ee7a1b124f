//! The resize protocol: the order in which the filesystem is checked and
//! resized, the partition-table entry deleted and recreated, and the data
//! relocated.
//!
//! The plan is carried out step by step by the caller. The first step that
//! fails ends the transaction: nothing is retried or rolled back, so the
//! partition may be left between two steps.
use vstd::prelude::*;
use crate::geometry::ResizeOperation;
use crate::relocation::Offset;
use crate::filesystem::{
    FileSystemType, ResizeError, ResizeTool, has_resize_tool, resize_tool, size_argument,
    size_fits, size_text, ResizeUnit,
};

verus! {

/// The partition a filesystem step acts on: the one the transaction started
/// with, or the one the latest `Create` step returned.
#[derive(PartialEq, Eq, Structural, Clone, Copy, Debug)]
pub enum Target {
    Original,
    Recreated,
}

/// One step of a resize transaction.
#[derive(PartialEq, Eq, Structural, Clone, Copy, Debug)]
pub enum Step {
    /// Check the filesystem's integrity.
    Check(Target),
    /// Run the resize tool with the plan's size argument.
    ResizeFileSystem(Target),
    /// Delete the partition-table entry of this number.
    Delete(u32),
    /// Create a partition-table entry over these sectors.
    Create { start: u64, end: u64 },
    /// Copy the data on the device as the plan says, then flush the device.
    Relocate(Offset),
}

/// What a failed step is reported as.
#[derive(PartialEq, Eq, Structural, Clone, Copy, Debug)]
pub enum FailureKind {
    /// The integrity check or the resize tool failed.
    Resize,
    /// The relocation failed.
    Move,
    /// The partition table could not be changed; the caller's own error is
    /// passed on unchanged.
    Table,
}

/// Everything a caller needs to carry out one resize transaction.
pub struct ResizePlan {
    pub tool: ResizeTool,
    pub size: String,
    pub steps: Vec<Step>,
}

/// The filesystem part: a shrink checks and shrinks the filesystem where it
/// is; a grow recreates the entry at the new bounds first and then checks and
/// grows the filesystem of the recreated partition.
pub open spec fn filesystem_steps(num: u32, op: ResizeOperation) -> Seq<Step> {
    if op.size_change() < 0 {
        seq![Step::Check(Target::Original), Step::ResizeFileSystem(Target::Original)]
    } else if op.size_change() > 0 {
        seq![
            Step::Delete(num),
            new_entry(op),
            Step::Check(Target::Recreated),
            Step::ResizeFileSystem(Target::Recreated),
        ]
    } else {
        seq![]
    }
}

/// The move part: the entry is deleted unless the grow already deleted it,
/// the data is relocated, and the entry is created at the new bounds.
pub open spec fn move_steps(num: u32, op: ResizeOperation) -> Seq<Step> {
    if op.old.start != op.new.start {
        (if op.size_change() > 0 {
            seq![]
        } else {
            seq![Step::Delete(num)]
        }) + seq![
            Step::Relocate(op.relocation()),
            new_entry(op),
        ]
    } else {
        seq![]
    }
}

/// Creation of the partition-table entry at the new bounds.
pub open spec fn new_entry(op: ResizeOperation) -> Step {
    Step::Create { start: op.new.start, end: op.new.end }
}

pub open spec fn plan_steps(num: u32, op: ResizeOperation) -> Seq<Step> {
    filesystem_steps(num, op) + move_steps(num, op)
}

/// What the caller's arguments must allow: well-formed bounds, a shift that
/// fits the relocation's signed offset, and a size argument that can be
/// computed.
pub open spec fn plannable(fs: Option<FileSystemType>, op: ResizeOperation) -> bool {
    &&& fs != Some(FileSystemType::Swap)
    &&& op.old.start <= op.old.end
    &&& op.new.start <= op.new.end
    &&& i64::MIN <= op.start_shift() <= i64::MAX
    &&& has_resize_tool(fs) ==> size_fits(ResizeUnit::AbsoluteMebibyte, op)
}

/// The plan in each of its six shapes.
proof fn lemma_plan_shapes(num: u32, op: ResizeOperation)
    ensures
        ({
            let steps = plan_steps(num, op);
            let create = new_entry(op);
            let relocate = Step::Relocate(op.relocation());
            &&& op.size_change() < 0 && op.old.start == op.new.start ==> steps == seq![
                Step::Check(Target::Original),
                Step::ResizeFileSystem(Target::Original),
            ]
            &&& op.size_change() < 0 && op.old.start != op.new.start ==> steps == seq![
                Step::Check(Target::Original),
                Step::ResizeFileSystem(Target::Original),
                Step::Delete(num),
                relocate,
                create,
            ]
            &&& op.size_change() > 0 && op.old.start == op.new.start ==> steps == seq![
                Step::Delete(num),
                create,
                Step::Check(Target::Recreated),
                Step::ResizeFileSystem(Target::Recreated),
            ]
            &&& op.size_change() > 0 && op.old.start != op.new.start ==> steps == seq![
                Step::Delete(num),
                create,
                Step::Check(Target::Recreated),
                Step::ResizeFileSystem(Target::Recreated),
                relocate,
                create,
            ]
            &&& op.size_change() == 0 && op.old.start == op.new.start ==> steps == Seq::<
                Step,
            >::empty()
            &&& op.size_change() == 0 && op.old.start != op.new.start ==> steps == seq![
                Step::Delete(num),
                relocate,
                create,
            ]
        }),
{
    let steps = plan_steps(num, op);
    let create = new_entry(op);
    let relocate = Step::Relocate(op.relocation());
    if op.size_change() < 0 && op.old.start != op.new.start {
        assert(steps =~= seq![
            Step::Check(Target::Original),
            Step::ResizeFileSystem(Target::Original),
            Step::Delete(num),
            relocate,
            create,
        ]);
    }
    if op.size_change() < 0 && op.old.start == op.new.start {
        assert(steps =~= seq![
            Step::Check(Target::Original),
            Step::ResizeFileSystem(Target::Original),
        ]);
    }
    if op.size_change() > 0 && op.old.start == op.new.start {
        assert(steps =~= seq![
            Step::Delete(num),
            create,
            Step::Check(Target::Recreated),
            Step::ResizeFileSystem(Target::Recreated),
        ]);
    }
    if op.size_change() > 0 && op.old.start != op.new.start {
        assert(steps =~= seq![
            Step::Delete(num),
            create,
            Step::Check(Target::Recreated),
            Step::ResizeFileSystem(Target::Recreated),
            relocate,
            create,
        ]);
    }
    if op.size_change() == 0 && op.old.start == op.new.start {
        assert(steps =~= Seq::<Step>::empty());
    }
    if op.size_change() == 0 && op.old.start != op.new.start {
        assert(steps =~= seq![Step::Delete(num), relocate, create]);
    }
}

/// Every filesystem resize comes right after an integrity check of the same
/// partition, so a failed check stops the transaction before any resize.
pub proof fn lemma_check_before_resize(num: u32, op: ResizeOperation)
    ensures
        forall|i: int|
            0 <= i < plan_steps(num, op).len() && (#[trigger] plan_steps(num, op)[i]) is ResizeFileSystem
                ==> 1 <= i && plan_steps(num, op)[i - 1] == Step::Check(
                plan_steps(num, op)[i]->ResizeFileSystem_0,
            ),
{
    lemma_plan_shapes(num, op);
}

/// The partition-table entry is deleted at most once per transaction.
pub proof fn lemma_single_delete(num: u32, op: ResizeOperation)
    ensures
        forall|i: int, j: int|
            0 <= i < plan_steps(num, op).len() && 0 <= j < plan_steps(num, op).len() && (
            #[trigger] plan_steps(num, op)[i]) is Delete && (#[trigger] plan_steps(num, op)[j]) is Delete
                ==> i == j,
{
    lemma_plan_shapes(num, op);
}

/// The data is relocated only after the entry is deleted and after every
/// filesystem step, and the entry is created at the new bounds right after.
pub proof fn lemma_relocation_order(num: u32, op: ResizeOperation)
    ensures
        forall|i: int|
            0 <= i < plan_steps(num, op).len() && (#[trigger] plan_steps(num, op)[i]) is Relocate ==> {
                &&& plan_steps(num, op)[i] == Step::Relocate(op.relocation())
                &&& exists|j: int| 0 <= j < i && plan_steps(num, op)[j] == Step::Delete(num)
                &&& i + 1 < plan_steps(num, op).len()
                &&& plan_steps(num, op)[i + 1] == new_entry(op)
                &&& forall|j: int|
                    i < j < plan_steps(num, op).len() ==> !(plan_steps(num, op)[j] is Check)
                        && !(plan_steps(num, op)[j] is ResizeFileSystem)
            },
{
    lemma_plan_shapes(num, op);
    let steps = plan_steps(num, op);
    assert forall|i: int| 0 <= i < steps.len() && (#[trigger] steps[i]) is Relocate implies exists|
        j: int,
    | 0 <= j < i && steps[j] == Step::Delete(num) by {
        if steps[0] == Step::Delete(num) {
            assert(0 < i);
        } else {
            assert(steps[2] == Step::Delete(num));
        }
    }
}

/// A partition that grows is resized only after its entry is recreated at
/// the new bounds; one that shrinks is resized where it is, before anything
/// else.
pub proof fn lemma_recreate_before_grow(num: u32, op: ResizeOperation)
    ensures
        forall|i: int|
            0 <= i < plan_steps(num, op).len() && #[trigger] plan_steps(num, op)[i]
                == Step::Check(Target::Recreated) ==> op.size_change() > 0 && 2 <= i
                && plan_steps(num, op)[i - 1] == new_entry(op)
                && plan_steps(num, op)[i - 2] == Step::Delete(num),
        op.size_change() < 0 ==> plan_steps(num, op)[0] == Step::Check(Target::Original),
{
    lemma_plan_shapes(num, op);
}

pub open spec fn failure_kind(step: Step) -> FailureKind {
    match step {
        Step::Check(_) | Step::ResizeFileSystem(_) => FailureKind::Resize,
        Step::Relocate(_) => FailureKind::Move,
        Step::Delete(_) | Step::Create { .. } => FailureKind::Table,
    }
}

impl Step {
    /// How the failure of this step is reported.
    pub fn failure(&self) -> (r: FailureKind)
        ensures
            r == failure_kind(*self),
    {
        match self {
            Step::Check(_) | Step::ResizeFileSystem(_) => FailureKind::Resize,
            Step::Relocate(_) => FailureKind::Move,
            Step::Delete(_) | Step::Create { .. } => FailureKind::Table,
        }
    }
}

/// Plans the resize of partition `num`, which holds `fs`. Fails when no
/// resize tool is known for `fs`, before any step is taken.
pub fn plan(num: u32, fs: Option<FileSystemType>, op: &ResizeOperation) -> (r: Result<
    ResizePlan,
    ResizeError,
>)
    requires
        plannable(fs, *op),
    ensures
        r is Ok <==> has_resize_tool(fs),
        r matches Ok(p) ==> p.tool.command@ == "resize2fs"@ && p.tool.args@.len() == 0
            && p.tool.unit == ResizeUnit::AbsoluteMebibyte
            && p.size@ == size_text(ResizeUnit::AbsoluteMebibyte, *op)
            && p.steps@ == plan_steps(num, *op),
        r matches Err(e) ==> e == ResizeError::UnsupportedFileSystem(fs),
{
    let tool = match resize_tool(fs) {
        Ok(tool) => tool,
        Err(e) => {
            return Err(e);
        },
    };
    let size = size_argument(tool.unit, op);
    let moving = op.is_moving();
    let shrinking = op.is_shrinking();
    let growing = op.is_growing();
    let mut steps: Vec<Step> = Vec::new();
    if shrinking {
        steps.push(Step::Check(Target::Original));
        steps.push(Step::ResizeFileSystem(Target::Original));
    } else if growing {
        steps.push(Step::Delete(num));
        steps.push(Step::Create { start: op.new.start, end: op.new.end });
        steps.push(Step::Check(Target::Recreated));
        steps.push(Step::ResizeFileSystem(Target::Recreated));
    }
    proof {
        assert(steps@ =~= filesystem_steps(num, *op));
    }
    if moving {
        if !growing {
            steps.push(Step::Delete(num));
        }
        steps.push(Step::Relocate(op.offset()));
        steps.push(Step::Create { start: op.new.start, end: op.new.end });
    }
    proof {
        assert(steps@ =~= plan_steps(num, *op));
    }
    Ok(ResizePlan { tool, size, steps })
}

} // verus!
