//! The course of an installation. A new tree is built beside the installed one and
//! takes its place only when it is complete; until then the installed tree is left
//! alone, and afterwards it is kept aside until the new one stands.
//!
//! Whoever drives an installation performs the operation that its stage names and
//! hands the outcome back with `resume`, until the stage is `Done` or `Failed`.

use vstd::prelude::*;

use crate::text::join3;

verus! {

/// What is installed.
pub enum InstallKind {
    /// An addon.
    Addon,
    /// The server, whose worlds and settings outlive it.
    Server,
}

/// The operations that carry something over from the installed tree.
pub enum PreserveStep {
    /// Is it there?
    Source,
    /// Is something of that name in the new tree?
    Destination,
    /// Is that a directory?
    Kind,
    /// Remove that directory.
    RemoveTree,
    /// Remove that file.
    RemoveFile,
    /// Copy it into the new tree.
    Copy,
}

/// Why an installation failed.
pub enum Fault {
    /// An operation failed, for this reason.
    System(String),
    /// The new tree holds no server.
    NoExecutable,
}

/// The operation at hand.
pub enum Stage {
    /// Does a staged tree exist?
    ProbeStaging,
    /// Remove the staged tree.
    ClearStaging,
    /// Does a tree that was kept aside exist?
    ProbeBackup,
    /// Remove the tree that was kept aside.
    ClearBackup,
    /// Create the staged tree, empty.
    CreateStaging,
    /// Unpack the archive into the staged tree.
    Unpack,
    /// The archive could not be unpacked: does the staged tree exist?
    DiscardProbe(Fault),
    /// The archive could not be unpacked: remove the staged tree.
    Discard(Fault),
    /// Does the staged tree hold the server?
    CheckExecutable,
    /// Write into the staged tree what it holds.
    WriteMarker,
    /// Does an installed tree exist?
    ProbeCurrent,
    /// Carry something over; see [`preserved_name`].
    Preserve(usize, PreserveStep),
    /// Rename the installed tree, to keep it aside.
    MoveAside,
    /// Rename the staged tree, to install it.
    MoveIn,
    /// The staged tree could not be installed: does a tree that was kept aside exist?
    RollbackProbe(Fault),
    /// The staged tree could not be installed: rename the tree that was kept aside, to
    /// install it again.
    Rollback(Fault),
    /// Does a tree that was kept aside exist?
    ProbeOld,
    /// Remove the tree that was kept aside.
    ClearOld,
    /// The new tree is installed.
    Done,
    /// The installation failed.
    Failed(Fault),
}

/// How many things are carried over.
pub const PRESERVED_COUNT: usize = 4;

/// The names of what is carried over from one server to the next, in order.
pub open spec fn preserved_names() -> Seq<Seq<char>> {
    seq!["worlds"@, "server.properties"@, "allowlist.json"@, "permissions.json"@]
}

/// The name of what is carried over at this position.
pub fn preserved_name(item: usize) -> (name: &'static str)
    requires
        item < PRESERVED_COUNT,
    ensures
        name@ == preserved_names()[item as int],
{
    if item == 0 {
        "worlds"
    } else if item == 1 {
        "server.properties"
    } else if item == 2 {
        "allowlist.json"
    } else {
        "permissions.json"
    }
}

/// The name under which a new tree is built.
pub fn staging_name(name: &str) -> (staging: String)
    ensures
        staging@ == "."@ + name@ + ".staging"@,
{
    join3(".", name, ".staging")
}

/// The name under which the installed tree is kept aside.
pub fn backup_name(name: &str) -> (backup: String)
    ensures
        backup@ == "."@ + name@ + ".backup"@,
{
    join3(".", name, ".backup")
}

impl Fault {
    /// What is said of the failure.
    pub open spec fn text(self) -> Seq<char> {
        match self {
            Fault::System(detail) => detail@,
            Fault::NoExecutable => "BDS ZIPにbedrock_server.exeがありません"@,
        }
    }

    /// What is said of the failure.
    pub fn message(self) -> (message: String)
        ensures
            message@ == self.text(),
    {
        match self {
            Fault::System(detail) => detail,
            Fault::NoExecutable => "BDS ZIPにbedrock_server.exeがありません".to_owned(),
        }
    }
}

/// The first operation of an installation.
pub open spec fn first_stage() -> Stage {
    Stage::ProbeStaging
}

/// The operation that follows once something has been carried over, or was not
/// there.
pub open spec fn after_preserving(item: usize) -> Stage {
    if item + 1 < PRESERVED_COUNT {
        Stage::Preserve((item + 1) as usize, PreserveStep::Source)
    } else {
        Stage::MoveAside
    }
}

/// The stage that follows an operation that had to succeed.
pub open spec fn unless_failed(outcome: Result<bool, String>, next: Stage) -> Stage {
    match outcome {
        Ok(_) => next,
        Err(detail) => Stage::Failed(Fault::System(detail)),
    }
}

/// The operation that follows from the outcome of the one at hand. A question whose
/// answer could not be had counts as answered with no.
pub open spec fn next_stage(
    kind: InstallKind,
    stage: Stage,
    outcome: Result<bool, String>,
) -> Stage {
    let yes = outcome == Ok::<bool, String>(true);
    match stage {
        Stage::ProbeStaging => if yes {
            Stage::ClearStaging
        } else {
            Stage::ProbeBackup
        },
        Stage::ClearStaging => unless_failed(outcome, Stage::ProbeBackup),
        Stage::ProbeBackup => if yes {
            Stage::ClearBackup
        } else {
            Stage::CreateStaging
        },
        Stage::ClearBackup => unless_failed(outcome, Stage::CreateStaging),
        Stage::CreateStaging => unless_failed(outcome, Stage::Unpack),
        Stage::Unpack => match (outcome, kind) {
            (Ok(_), InstallKind::Addon) => Stage::WriteMarker,
            (Ok(_), InstallKind::Server) => Stage::CheckExecutable,
            (Err(detail), InstallKind::Addon) => Stage::DiscardProbe(Fault::System(detail)),
            (Err(detail), InstallKind::Server) => Stage::Failed(Fault::System(detail)),
        },
        Stage::DiscardProbe(fault) => if yes {
            Stage::Discard(fault)
        } else {
            Stage::Failed(fault)
        },
        Stage::Discard(fault) => Stage::Failed(fault),
        Stage::CheckExecutable => if yes {
            Stage::WriteMarker
        } else {
            Stage::Failed(Fault::NoExecutable)
        },
        Stage::WriteMarker => unless_failed(outcome, Stage::ProbeCurrent),
        Stage::ProbeCurrent => match (yes, kind) {
            (true, InstallKind::Addon) => Stage::MoveAside,
            (true, InstallKind::Server) => Stage::Preserve(0, PreserveStep::Source),
            (false, _) => Stage::MoveIn,
        },
        Stage::Preserve(item, step) => match step {
            PreserveStep::Source => if yes {
                Stage::Preserve(item, PreserveStep::Destination)
            } else {
                after_preserving(item)
            },
            PreserveStep::Destination => if yes {
                Stage::Preserve(item, PreserveStep::Kind)
            } else {
                Stage::Preserve(item, PreserveStep::Copy)
            },
            PreserveStep::Kind => if yes {
                Stage::Preserve(item, PreserveStep::RemoveTree)
            } else {
                Stage::Preserve(item, PreserveStep::RemoveFile)
            },
            PreserveStep::RemoveTree => unless_failed(
                outcome,
                Stage::Preserve(item, PreserveStep::Copy),
            ),
            PreserveStep::RemoveFile => unless_failed(
                outcome,
                Stage::Preserve(item, PreserveStep::Copy),
            ),
            PreserveStep::Copy => unless_failed(outcome, after_preserving(item)),
        },
        Stage::MoveAside => unless_failed(outcome, Stage::MoveIn),
        Stage::MoveIn => match outcome {
            Ok(_) => Stage::ProbeOld,
            Err(detail) => Stage::RollbackProbe(Fault::System(detail)),
        },
        Stage::RollbackProbe(fault) => if yes {
            Stage::Rollback(fault)
        } else {
            Stage::Failed(fault)
        },
        Stage::Rollback(fault) => Stage::Failed(fault),
        Stage::ProbeOld => if yes {
            Stage::ClearOld
        } else {
            Stage::Done
        },
        Stage::ClearOld => unless_failed(outcome, Stage::Done),
        Stage::Done => Stage::Done,
        Stage::Failed(fault) => Stage::Failed(fault),
    }
}

/// Whether the stage speaks of something that is carried over at all.
pub open spec fn is_stage(stage: Stage) -> bool {
    stage matches Stage::Preserve(item, _) ==> item < PRESERVED_COUNT
}

fn continue_unless_failed(outcome: Result<bool, String>, next: Stage) -> (stage: Stage)
    ensures
        stage == unless_failed(outcome, next),
{
    match outcome {
        Ok(_) => next,
        Err(detail) => Stage::Failed(Fault::System(detail)),
    }
}

fn follow_preserving(item: usize) -> (stage: Stage)
    requires
        item < PRESERVED_COUNT,
    ensures
        stage == after_preserving(item),
{
    if item + 1 < PRESERVED_COUNT {
        Stage::Preserve(item + 1, PreserveStep::Source)
    } else {
        Stage::MoveAside
    }
}

/// An installation under way.
pub struct Installation {
    pub kind: InstallKind,
    pub stage: Stage,
}

impl Installation {
    /// Begins an installation.
    pub fn begin(kind: InstallKind) -> (installation: Self)
        ensures
            installation.kind == kind,
            installation.stage == first_stage(),
    {
        Installation { kind, stage: Stage::ProbeStaging }
    }

    /// Goes on with the outcome of the operation at hand.
    pub fn resume(self, outcome: Result<bool, String>) -> (next: Self)
        requires
            is_stage(self.stage),
        ensures
            next.kind == self.kind,
            next.stage == next_stage(self.kind, self.stage, outcome),
            is_stage(next.stage),
    {
        let kind: InstallKind = self.kind;
        let yes: bool = match &outcome {
            Ok(answer) => *answer,
            Err(_) => false,
        };
        let stage: Stage = match self.stage {
            Stage::ProbeStaging => if yes {
                Stage::ClearStaging
            } else {
                Stage::ProbeBackup
            },
            Stage::ClearStaging => continue_unless_failed(outcome, Stage::ProbeBackup),
            Stage::ProbeBackup => if yes {
                Stage::ClearBackup
            } else {
                Stage::CreateStaging
            },
            Stage::ClearBackup => continue_unless_failed(outcome, Stage::CreateStaging),
            Stage::CreateStaging => continue_unless_failed(outcome, Stage::Unpack),
            Stage::Unpack => match outcome {
                Ok(_) => match kind {
                    InstallKind::Addon => Stage::WriteMarker,
                    InstallKind::Server => Stage::CheckExecutable,
                },
                Err(detail) => match kind {
                    InstallKind::Addon => Stage::DiscardProbe(Fault::System(detail)),
                    InstallKind::Server => Stage::Failed(Fault::System(detail)),
                },
            },
            Stage::DiscardProbe(fault) => if yes {
                Stage::Discard(fault)
            } else {
                Stage::Failed(fault)
            },
            Stage::Discard(fault) => Stage::Failed(fault),
            Stage::CheckExecutable => if yes {
                Stage::WriteMarker
            } else {
                Stage::Failed(Fault::NoExecutable)
            },
            Stage::WriteMarker => continue_unless_failed(outcome, Stage::ProbeCurrent),
            Stage::ProbeCurrent => if yes {
                match kind {
                    InstallKind::Addon => Stage::MoveAside,
                    InstallKind::Server => Stage::Preserve(0, PreserveStep::Source),
                }
            } else {
                Stage::MoveIn
            },
            Stage::Preserve(item, step) => match step {
                PreserveStep::Source => if yes {
                    Stage::Preserve(item, PreserveStep::Destination)
                } else {
                    follow_preserving(item)
                },
                PreserveStep::Destination => if yes {
                    Stage::Preserve(item, PreserveStep::Kind)
                } else {
                    Stage::Preserve(item, PreserveStep::Copy)
                },
                PreserveStep::Kind => if yes {
                    Stage::Preserve(item, PreserveStep::RemoveTree)
                } else {
                    Stage::Preserve(item, PreserveStep::RemoveFile)
                },
                PreserveStep::RemoveTree => continue_unless_failed(
                    outcome,
                    Stage::Preserve(item, PreserveStep::Copy),
                ),
                PreserveStep::RemoveFile => continue_unless_failed(
                    outcome,
                    Stage::Preserve(item, PreserveStep::Copy),
                ),
                PreserveStep::Copy => continue_unless_failed(outcome, follow_preserving(item)),
            },
            Stage::MoveAside => continue_unless_failed(outcome, Stage::MoveIn),
            Stage::MoveIn => match outcome {
                Ok(_) => Stage::ProbeOld,
                Err(detail) => Stage::RollbackProbe(Fault::System(detail)),
            },
            Stage::RollbackProbe(fault) => if yes {
                Stage::Rollback(fault)
            } else {
                Stage::Failed(fault)
            },
            Stage::Rollback(fault) => Stage::Failed(fault),
            Stage::ProbeOld => if yes {
                Stage::ClearOld
            } else {
                Stage::Done
            },
            Stage::ClearOld => continue_unless_failed(outcome, Stage::Done),
            Stage::Done => Stage::Done,
            Stage::Failed(fault) => Stage::Failed(fault),
        };
        Installation { kind, stage }
    }
}

/// How many operations an installation can have left, at most.
pub open spec fn operations_left(stage: Stage) -> nat {
    match stage {
        Stage::ProbeStaging => 60,
        Stage::ClearStaging => 59,
        Stage::ProbeBackup => 58,
        Stage::ClearBackup => 57,
        Stage::CreateStaging => 56,
        Stage::Unpack => 55,
        Stage::DiscardProbe(_) => 2,
        Stage::Discard(_) => 1,
        Stage::CheckExecutable => 54,
        Stage::WriteMarker => 53,
        Stage::ProbeCurrent => 52,
        Stage::Preserve(item, step) => (7 + 6 * (PRESERVED_COUNT - 1 - item) + match step {
            PreserveStep::Source => 5int,
            PreserveStep::Destination => 4int,
            PreserveStep::Kind => 3int,
            PreserveStep::RemoveTree => 2int,
            PreserveStep::RemoveFile => 2int,
            PreserveStep::Copy => 1int,
        }) as nat,
        Stage::MoveAside => 6,
        Stage::MoveIn => 5,
        Stage::RollbackProbe(_) => 2,
        Stage::Rollback(_) => 1,
        Stage::ProbeOld => 2,
        Stage::ClearOld => 1,
        Stage::Done => 0,
        Stage::Failed(_) => 0,
    }
}

/// An installation ends, whatever the outcomes: each operation leaves fewer to come,
/// and with none left it is done or has failed.
pub proof fn installations_end(kind: InstallKind, stage: Stage, outcome: Result<bool, String>)
    requires
        is_stage(stage),
    ensures
        operations_left(stage) == 0 <==> (stage is Done || stage is Failed),
        operations_left(stage) > 0 ==> operations_left(next_stage(kind, stage, outcome))
            < operations_left(stage),
{
}

/// Whether the operation of `stage` went wrong: it failed, or the new tree was found to
/// hold no server.
pub open spec fn went_wrong(stage: Stage, outcome: Result<bool, String>) -> bool {
    outcome is Err || (stage is CheckExecutable && outcome != Ok::<bool, String>(true))
}

/// Whether these are the stages and the outcomes of an installation, from its beginning.
pub open spec fn is_course(
    kind: InstallKind,
    stages: Seq<Stage>,
    outcomes: Seq<Result<bool, String>>,
) -> bool {
    &&& stages.len() == outcomes.len() + 1
    &&& stages[0] is ProbeStaging
    &&& forall|i: int|
        0 <= i < outcomes.len() ==> stages[i + 1] == next_stage(
            kind,
            stages[i],
            #[trigger] outcomes[i],
        )
}

/// Whether the stage belongs to an installation that is being given up, or was.
pub open spec fn is_given_up(stage: Stage) -> bool {
    ||| stage is DiscardProbe
    ||| stage is Discard
    ||| stage is RollbackProbe
    ||| stage is Rollback
    ||| stage is Failed
}

proof fn lemma_course(
    kind: InstallKind,
    stages: Seq<Stage>,
    outcomes: Seq<Result<bool, String>>,
    n: nat,
)
    requires
        is_course(kind, stages, outcomes),
        n < stages.len(),
    ensures
        is_stage(stages[n as int]),
        stages[n as int] is Done || stages[n as int] is Failed || operations_left(stages[n as int])
            + n <= 60,
    decreases n,
{
    if n > 0 {
        lemma_course(kind, stages, outcomes, (n - 1) as nat);
        assert(stages[n as int] == next_stage(kind, stages[n - 1], outcomes[n - 1]));
        installations_end(kind, stages[n - 1], outcomes[n - 1]);
        installations_end(kind, stages[n as int], outcomes[n - 1]);
    }
}

/// An installation in which nothing goes wrong is never given up, and is done after at
/// most sixty operations, whatever is found on the disk.
pub proof fn installations_without_trouble_succeed(
    kind: InstallKind,
    stages: Seq<Stage>,
    outcomes: Seq<Result<bool, String>>,
    n: nat,
)
    requires
        is_course(kind, stages, outcomes),
        n < stages.len(),
        forall|i: int| 0 <= i < n ==> !went_wrong(stages[i], #[trigger] outcomes[i]),
    ensures
        !is_given_up(stages[n as int]),
        n >= 60 ==> stages[n as int] is Done,
    decreases n,
{
    lemma_course(kind, stages, outcomes, n);
    if n > 0 {
        installations_without_trouble_succeed(kind, stages, outcomes, (n - 1) as nat);
        assert(!went_wrong(stages[n - 1], outcomes[n - 1]));
        assert(stages[n as int] == next_stage(kind, stages[n - 1], outcomes[n - 1]));
        installations_end(kind, stages[n as int], outcomes[n - 1]);
    }
}

/// Whether an installation that is given up is given up for this reason.
pub open spec fn is_given_up_for(stage: Stage, fault: Fault) -> bool {
    ||| stage == Stage::DiscardProbe(fault)
    ||| stage == Stage::Discard(fault)
    ||| stage == Stage::RollbackProbe(fault)
    ||| stage == Stage::Rollback(fault)
    ||| stage == Stage::Failed(fault)
}

/// Whether something that went wrong by operation `k` is reason enough for `fault`.
pub open spec fn explains(
    stages: Seq<Stage>,
    outcomes: Seq<Result<bool, String>>,
    k: int,
    fault: Fault,
) -> bool {
    match fault {
        Fault::System(detail) => outcomes[k] == Err::<bool, String>(detail),
        Fault::NoExecutable => stages[k] is CheckExecutable && outcomes[k] != Ok::<bool, String>(
            true,
        ),
    }
}

/// An installation is given up only for something that went wrong, and says what: the
/// failure of an operation is told in its own words, and that the new tree holds no
/// server is said only where none was found in it.
pub proof fn installations_fail_for_what_went_wrong(
    kind: InstallKind,
    stages: Seq<Stage>,
    outcomes: Seq<Result<bool, String>>,
    n: nat,
    fault: Fault,
)
    requires
        is_course(kind, stages, outcomes),
        n < stages.len(),
        is_given_up_for(stages[n as int], fault),
    ensures
        exists|k: int| 0 <= k < n && #[trigger] explains(stages, outcomes, k, fault),
    decreases n,
{
    if n > 0 {
        assert(stages[n as int] == next_stage(kind, stages[n - 1], outcomes[n - 1]));
        if is_given_up_for(stages[n - 1], fault) {
            installations_fail_for_what_went_wrong(
                kind,
                stages,
                outcomes,
                (n - 1) as nat,
                fault,
            );
            let k = choose|k: int|
                0 <= k < n - 1 && #[trigger] explains(stages, outcomes, k, fault);
            assert(explains(stages, outcomes, k, fault));
        } else {
            assert(explains(stages, outcomes, n - 1, fault));
        }
    }
}

/// What goes wrong is not passed over: an operation that builds, moves or carries
/// something over and fails has the installation given up, with its own words, and so
/// does a new tree that holds no server.
pub proof fn trouble_is_not_passed_over(kind: InstallKind, stage: Stage, detail: String)
    requires
        stage is ClearStaging || stage is ClearBackup || stage is CreateStaging
            || stage is Unpack || stage is WriteMarker || stage is MoveAside || stage is MoveIn
            || stage is ClearOld || (stage matches Stage::Preserve(_, step) && (
        step is RemoveTree || step is RemoveFile || step is Copy)),
    ensures
        is_given_up_for(next_stage(kind, stage, Err(detail)), Fault::System(detail)),
        next_stage(kind, Stage::CheckExecutable, Ok(false)) == Stage::Failed(Fault::NoExecutable),
        Fault::System(detail).text() == detail@,
        Fault::NoExecutable.text() == "BDS ZIPにbedrock_server.exeがありません"@,
{
}

/// What stands in the way of something that is carried over is removed as what it is: as
/// a directory exactly if it was found to be one.
pub proof fn directories_are_removed_as_directories(
    kind: InstallKind,
    stage: Stage,
    outcome: Result<bool, String>,
    item: usize,
)
    requires
        next_stage(kind, stage, outcome) == Stage::Preserve(item, PreserveStep::RemoveTree)
            || next_stage(kind, stage, outcome) == Stage::Preserve(item, PreserveStep::RemoveFile),
    ensures
        stage == Stage::Preserve(item, PreserveStep::Kind),
        next_stage(kind, stage, outcome) == Stage::Preserve(item, PreserveStep::RemoveTree) <==> (
        outcome == Ok::<bool, String>(true)),
{
}

} // verus!
