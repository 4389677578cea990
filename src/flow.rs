//! The steps of creating a card, as a state machine driven by the worker.
//!
//! Only the creation of the room can fail the operation. Once the room
//! exists the card is committed: saving its metadata and each of the four
//! relationship steps are attempted in turn whatever the previous one gave.
use vstd::prelude::*;

verus! {

/// How far a card creation has come.
#[derive(Debug, Clone, Copy, PartialEq, Eq, Structural)]
pub enum CreateCardStage {
    Requested,
    RoomCreated,
    MetadataPersisted,
    ChildRecordWritten,
    ParentRecordWritten,
    BackupRecordWritten,
    Visible,
    Failed,
}

/// The remote work to do next.
#[derive(Debug, Clone, Copy, PartialEq, Eq, Structural)]
pub enum CreateCardStep {
    CreateRoom,
    SaveMetadata,
    WriteChildRecord,
    WriteParentRecord,
    UpdateBackupRecord,
    WriteLocalCache,
}

pub open spec fn step_spec(stage: CreateCardStage) -> Option<CreateCardStep> {
    match stage {
        CreateCardStage::Requested => Some(CreateCardStep::CreateRoom),
        CreateCardStage::RoomCreated => Some(CreateCardStep::SaveMetadata),
        CreateCardStage::MetadataPersisted => Some(CreateCardStep::WriteChildRecord),
        CreateCardStage::ChildRecordWritten => Some(CreateCardStep::WriteParentRecord),
        CreateCardStage::ParentRecordWritten => Some(CreateCardStep::UpdateBackupRecord),
        CreateCardStage::BackupRecordWritten => Some(CreateCardStep::WriteLocalCache),
        CreateCardStage::Visible => None,
        CreateCardStage::Failed => None,
    }
}

pub open spec fn advance_spec(stage: CreateCardStage, succeeded: bool) -> CreateCardStage {
    match stage {
        CreateCardStage::Requested => if succeeded {
            CreateCardStage::RoomCreated
        } else {
            CreateCardStage::Failed
        },
        CreateCardStage::RoomCreated => CreateCardStage::MetadataPersisted,
        CreateCardStage::MetadataPersisted => CreateCardStage::ChildRecordWritten,
        CreateCardStage::ChildRecordWritten => CreateCardStage::ParentRecordWritten,
        CreateCardStage::ParentRecordWritten => CreateCardStage::BackupRecordWritten,
        CreateCardStage::BackupRecordWritten => CreateCardStage::Visible,
        CreateCardStage::Visible => CreateCardStage::Visible,
        CreateCardStage::Failed => CreateCardStage::Failed,
    }
}

/// The stage reached from `stage` when the next steps give `outcomes`.
pub open spec fn run_spec(stage: CreateCardStage, outcomes: Seq<bool>) -> CreateCardStage
    decreases outcomes.len(),
{
    if outcomes.len() == 0 {
        stage
    } else {
        run_spec(advance_spec(stage, outcomes[0]), outcomes.drop_first())
    }
}

/// Once the room exists, the five remaining steps make the card visible
/// whatever each of them gives; a failed room creation fails the operation.
pub proof fn lemma_committed_after_room(outcomes: Seq<bool>)
    requires
        outcomes.len() == 5,
    ensures
        run_spec(CreateCardStage::RoomCreated, outcomes) == CreateCardStage::Visible,
        run_spec(CreateCardStage::Requested, seq![true] + outcomes) == CreateCardStage::Visible,
        run_spec(CreateCardStage::Requested, seq![false]) == CreateCardStage::Failed,
{
    reveal_with_fuel(run_spec, 7);
    let o = outcomes;
    assert(o.drop_first().drop_first().drop_first().drop_first().drop_first().len() == 0);
    assert((seq![true] + o).drop_first() =~= o);
    assert(seq![false].drop_first().len() == 0);
}

/// The step to perform in `stage`, or `None` when the creation is over.
pub fn next_create_card_step(stage: CreateCardStage) -> (r: Option<CreateCardStep>)
    ensures
        r == step_spec(stage),
{
    match stage {
        CreateCardStage::Requested => Some(CreateCardStep::CreateRoom),
        CreateCardStage::RoomCreated => Some(CreateCardStep::SaveMetadata),
        CreateCardStage::MetadataPersisted => Some(CreateCardStep::WriteChildRecord),
        CreateCardStage::ChildRecordWritten => Some(CreateCardStep::WriteParentRecord),
        CreateCardStage::ParentRecordWritten => Some(CreateCardStep::UpdateBackupRecord),
        CreateCardStage::BackupRecordWritten => Some(CreateCardStep::WriteLocalCache),
        CreateCardStage::Visible => None,
        CreateCardStage::Failed => None,
    }
}

/// The stage after the step of `stage` gave `succeeded`.
pub fn advance_create_card(stage: CreateCardStage, succeeded: bool) -> (r: CreateCardStage)
    ensures
        r == advance_spec(stage, succeeded),
{
    match stage {
        CreateCardStage::Requested => if succeeded {
            CreateCardStage::RoomCreated
        } else {
            CreateCardStage::Failed
        },
        CreateCardStage::RoomCreated => CreateCardStage::MetadataPersisted,
        CreateCardStage::MetadataPersisted => CreateCardStage::ChildRecordWritten,
        CreateCardStage::ChildRecordWritten => CreateCardStage::ParentRecordWritten,
        CreateCardStage::ParentRecordWritten => CreateCardStage::BackupRecordWritten,
        CreateCardStage::BackupRecordWritten => CreateCardStage::Visible,
        CreateCardStage::Visible => CreateCardStage::Visible,
        CreateCardStage::Failed => CreateCardStage::Failed,
    }
}

} // verus!
