//! What an installation does to the disk: what the tree that it installs holds, and that
//! the tree that was installed before is not lost until the new one stands.

use vstd::prelude::*;

use crate::bds::{EXECUTABLE, ORIGIN_FILE};
use crate::install::{
    after_preserving, first_stage, next_stage, preserved_names, InstallKind, PreserveStep, Stage,
    PRESERVED_COUNT,
};
use crate::updater::{noted_version, InstalledVersion, RegistryVersion, VERSION_FILE};

verus! {

/// What stands under a name in a tree: a file, or a directory with all that is in it.
pub enum Content {
    /// A note of which version an addon is.
    Version(InstalledVersion),
    /// A note of where a server was downloaded.
    Origin(Seq<char>),
    /// Anything else, known by a number.
    Other(int),
}

/// A tree: what stands under each of the names at its top.
pub type Tree = Map<Seq<char>, Content>;

/// The three places that an installation works on. Each holds nothing, or a tree.
#[verifier::ext_equal]
pub struct Disk {
    pub staging: Option<Tree>,
    pub current: Option<Tree>,
    pub backup: Option<Tree>,
}

/// What is installed: the tree that the archive unpacks to, and the note that is written
/// into it.
pub struct Parcel {
    pub kind: InstallKind,
    pub unpacked: Tree,
    pub note_name: Seq<char>,
    pub note: Content,
}

/// The parcel of an addon in this version, whose archive unpacks to `unpacked`.
pub open spec fn addon_parcel(release: RegistryVersion, unpacked: Tree) -> Parcel {
    Parcel {
        kind: InstallKind::Addon,
        unpacked,
        note_name: VERSION_FILE@,
        note: Content::Version(noted_version(release)),
    }
}

/// The parcel of a server from `url`, whose archive unpacks to `unpacked`.
pub open spec fn server_parcel(url: Seq<char>, unpacked: Tree) -> Parcel {
    Parcel {
        kind: InstallKind::Server,
        unpacked,
        note_name: ORIGIN_FILE@,
        note: Content::Origin(url),
    }
}

/// Whether the operation of `stage` may turn `before` into `after` and have this
/// outcome. Questions are answered truly and change nothing. What builds or removes a
/// tree, or something in it, changes no other tree, and may leave any tree when it
/// fails. An archive is unpacked to its tree where nothing was before. A note takes the
/// place of what had its name. What is copied to where nothing was is then the same in
/// both places. Renaming moves a tree, or fails and moves nothing.
pub open spec fn may_become(
    parcel: Parcel,
    stage: Stage,
    outcome: Result<bool, String>,
    before: Disk,
    after: Disk,
) -> bool {
    let yes = outcome == Ok::<bool, String>(true);
    match stage {
        Stage::ProbeStaging | Stage::DiscardProbe(_) => after == before && yes
            == before.staging is Some,
        Stage::ProbeBackup | Stage::RollbackProbe(_) | Stage::ProbeOld => after == before && yes
            == before.backup is Some,
        Stage::ProbeCurrent => after == before && yes == before.current is Some,
        Stage::CheckExecutable => {
            &&& after == before
            &&& yes ==> before.staging is Some && before.staging->0.contains_key(EXECUTABLE@)
        },
        Stage::ClearStaging | Stage::Discard(_) => {
            &&& after.current == before.current
            &&& after.backup == before.backup
            &&& outcome is Ok ==> after.staging is None
        },
        Stage::ClearBackup | Stage::ClearOld => {
            &&& after.staging == before.staging
            &&& after.current == before.current
            &&& outcome is Ok ==> after.backup is None
        },
        Stage::CreateStaging => {
            &&& after.current == before.current
            &&& after.backup == before.backup
            &&& outcome is Ok && before.staging is None ==> after.staging == Some(
                Tree::empty(),
            )
        },
        Stage::Unpack => {
            &&& after.current == before.current
            &&& after.backup == before.backup
            &&& outcome is Ok && before.staging == Some(Tree::empty()) ==> after.staging == Some(
                parcel.unpacked,
            )
        },
        Stage::WriteMarker => {
            &&& after.current == before.current
            &&& after.backup == before.backup
            &&& outcome is Ok && before.staging is Some ==> after.staging == Some(
                before.staging->0.insert(parcel.note_name, parcel.note),
            )
        },
        Stage::Preserve(item, step) => {
            let name = preserved_names()[item as int];
            let there = before.current is Some && before.current->0.contains_key(name);
            let taken = before.staging is Some && before.staging->0.contains_key(name);
            match step {
                PreserveStep::Source => after == before && yes == there,
                PreserveStep::Destination => after == before && yes == taken,
                PreserveStep::Kind => after == before,
                PreserveStep::RemoveTree | PreserveStep::RemoveFile => {
                    &&& after.current == before.current
                    &&& after.backup == before.backup
                    &&& outcome is Ok && before.staging is Some ==> after.staging == Some(
                        before.staging->0.remove(name),
                    )
                },
                PreserveStep::Copy => {
                    &&& after.current == before.current
                    &&& after.backup == before.backup
                    &&& outcome is Ok && before.staging is Some && there && !taken
                        ==> after.staging == Some(
                        before.staging->0.insert(name, before.current->0[name]),
                    )
                },
            }
        },
        Stage::MoveAside => if outcome is Ok {
            after == (Disk { current: None, backup: before.current, ..before })
        } else {
            after == before
        },
        Stage::MoveIn => if outcome is Ok {
            after == (Disk { staging: None, current: before.staging, ..before })
        } else {
            after == before
        },
        Stage::Rollback(_) => if outcome is Ok {
            after == (Disk { current: before.backup, backup: None, ..before })
        } else {
            after == before
        },
        Stage::Done | Stage::Failed(_) => after == before,
    }
}

/// Whether these are the stages, the outcomes and the disks of an installation, from
/// its beginning.
pub open spec fn is_run(
    parcel: Parcel,
    stages: Seq<Stage>,
    outcomes: Seq<Result<bool, String>>,
    disks: Seq<Disk>,
) -> bool {
    &&& stages.len() == outcomes.len() + 1
    &&& disks.len() == outcomes.len() + 1
    &&& stages[0] == first_stage()
    &&& forall|i: int|
        0 <= i < outcomes.len() ==> stages[i + 1] == next_stage(
            parcel.kind,
            stages[i],
            #[trigger] outcomes[i],
        ) && may_become(parcel, stages[i], outcomes[i], disks[i], disks[i + 1])
}

/// The tree that has been moved in during the first `n` operations, if one has.
pub open spec fn moved_in(
    stages: Seq<Stage>,
    outcomes: Seq<Result<bool, String>>,
    disks: Seq<Disk>,
    n: nat,
) -> Option<Tree>
    decreases n,
{
    if n == 0 {
        None
    } else if stages[n - 1] is MoveIn && outcomes[n - 1] is Ok {
        disks[n - 1].staging
    } else {
        moved_in(stages, outcomes, disks, (n - 1) as nat)
    }
}

/// What the archive unpacks to, with the note over it.
pub open spec fn noted_tree(parcel: Parcel) -> Tree {
    parcel.unpacked.insert(parcel.note_name, parcel.note)
}

/// `tree` with what stands under `name` in `old` in the place of what stood there, if
/// `old` has something under that name.
pub open spec fn with_carried(tree: Tree, old: Tree, name: Seq<char>) -> Tree {
    if old.contains_key(name) {
        tree.insert(name, old[name])
    } else {
        tree
    }
}

/// `tree` with the first `count` things of `old` that outlive a server.
pub open spec fn with_all_carried(tree: Tree, old: Tree, count: nat) -> Tree
    decreases count,
{
    if count == 0 {
        tree
    } else {
        with_carried(
            with_all_carried(tree, old, (count - 1) as nat),
            old,
            preserved_names()[count - 1],
        )
    }
}

/// The tree that comes to be installed where `old` was before.
pub open spec fn new_tree(parcel: Parcel, old: Option<Tree>) -> Tree {
    match (parcel.kind, old) {
        (InstallKind::Server, Some(old)) => with_all_carried(
            noted_tree(parcel),
            old,
            PRESERVED_COUNT as nat,
        ),
        _ => noted_tree(parcel),
    }
}

/// What holds of the disk while something is carried over from `old`.
spec fn carrying_holds(parcel: Parcel, item: usize, step: PreserveStep, disk: Disk, old: Tree) -> bool {
    let name = preserved_names()[item as int];
    let tree = with_all_carried(noted_tree(parcel), old, item as nat);
    &&& parcel.kind is Server
    &&& item < PRESERVED_COUNT
    &&& match step {
        PreserveStep::Source => disk.staging == Some(tree),
        PreserveStep::Destination => disk.staging == Some(tree) && old.contains_key(name),
        PreserveStep::Kind | PreserveStep::RemoveTree | PreserveStep::RemoveFile => disk.staging
            == Some(tree) && old.contains_key(name),
        PreserveStep::Copy => disk.staging == Some(tree.remove(name)) && old.contains_key(name),
    }
}

/// What holds of the disk at a stage, where `old` was installed at first.
spec fn disk_holds(
    parcel: Parcel,
    stage: Stage,
    disk: Disk,
    old: Option<Tree>,
    placed: Option<Tree>,
) -> bool {
    match placed {
        Some(tree) => {
            &&& tree == new_tree(parcel, old)
            &&& disk.current == Some(tree)
            &&& disk.staging is None
            &&& stage is ProbeOld || stage is ClearOld || stage is Done || stage is Failed
            &&& stage is Done ==> disk.backup is None
        },
        None => match stage {
            Stage::ProbeStaging | Stage::ClearStaging => disk.current == old,
            Stage::ProbeBackup | Stage::ClearBackup => disk.current == old && disk.staging is None,
            Stage::CreateStaging => disk.current == old && disk.backup is None
                && disk.staging is None,
            Stage::DiscardProbe(_) | Stage::Discard(_) => disk.current == old
                && disk.backup is None,
            Stage::Unpack => disk.current == old && disk.backup is None && disk.staging == Some(
                Tree::empty(),
            ),
            Stage::CheckExecutable | Stage::WriteMarker => disk.current == old
                && disk.backup is None && disk.staging == Some(parcel.unpacked),
            Stage::ProbeCurrent => disk.current == old && disk.backup is None && disk.staging
                == Some(noted_tree(parcel)),
            Stage::Preserve(item, step) => disk.current == old && old is Some
                && disk.backup is None && carrying_holds(parcel, item, step, disk, old->0),
            Stage::MoveAside => disk.current == old && old is Some && disk.backup is None
                && disk.staging == Some(new_tree(parcel, old)),
            Stage::MoveIn => disk.current is None && disk.backup == old && disk.staging == Some(
                new_tree(parcel, old),
            ),
            Stage::RollbackProbe(_) | Stage::Rollback(_) => disk.current is None && disk.backup
                == old,
            Stage::ProbeOld | Stage::ClearOld | Stage::Done => false,
            Stage::Failed(_) => disk.current == old || (disk.current is None && disk.backup
                == old),
        },
    }
}

/// Whether a server whose installation has come to this stage must have its program.
spec fn is_past_check(stage: Stage) -> bool {
    ||| stage is WriteMarker
    ||| stage is ProbeCurrent
    ||| stage is Preserve
    ||| stage is MoveAside
    ||| stage is MoveIn
    ||| stage is ProbeOld
    ||| stage is ClearOld
    ||| stage is Done
}

proof fn lemma_preserving(
    parcel: Parcel,
    item: usize,
    step: PreserveStep,
    outcome: Result<bool, String>,
    before: Disk,
    after: Disk,
    old: Tree,
)
    requires
        before.current == Some(old),
        before.backup is None,
        carrying_holds(parcel, item, step, before, old),
        may_become(parcel, Stage::Preserve(item, step), outcome, before, after),
    ensures
        disk_holds(
            parcel,
            next_stage(parcel.kind, Stage::Preserve(item, step), outcome),
            after,
            Some(old),
            None,
        ),
{
    let name = preserved_names()[item as int];
    let tree = with_all_carried(noted_tree(parcel), old, item as nat);
    if !tree.contains_key(name) {
        assert(tree.remove(name) =~= tree);
    }
    if old.contains_key(name) {
        assert(tree.remove(name).insert(name, old[name]) =~= tree.insert(name, old[name]));
    }
    assert(with_all_carried(noted_tree(parcel), old, (item + 1) as nat) == with_carried(
        tree,
        old,
        name,
    ));
}

proof fn lemma_disk_holds(
    parcel: Parcel,
    stages: Seq<Stage>,
    outcomes: Seq<Result<bool, String>>,
    disks: Seq<Disk>,
    n: nat,
)
    requires
        is_run(parcel, stages, outcomes, disks),
        n < stages.len(),
    ensures
        disk_holds(
            parcel,
            stages[n as int],
            disks[n as int],
            disks[0].current,
            moved_in(stages, outcomes, disks, n),
        ),
        parcel.kind is Server && is_past_check(stages[n as int]) ==> parcel.unpacked.contains_key(
            EXECUTABLE@,
        ),
    decreases n,
{
    if n > 0 {
        let old = disks[0].current;
        let before = disks[n - 1];
        let stage = stages[n - 1];
        lemma_disk_holds(parcel, stages, outcomes, disks, (n - 1) as nat);
        assert(stages[n as int] == next_stage(parcel.kind, stage, outcomes[n - 1]));
        assert(may_become(parcel, stage, outcomes[n - 1], before, disks[n as int]));
        if let Stage::Preserve(item, step) = stage {
            lemma_preserving(parcel, item, step, outcomes[n - 1], before, disks[n as int], old->0);
        }
    }
}

/// At every moment of an installation the tree that was installed is still installed
/// or kept aside, or else the new tree has been moved in, and then it stays. One that
/// is done has moved the new tree in and left nothing else.
pub proof fn installed_trees_are_not_lost(
    parcel: Parcel,
    stages: Seq<Stage>,
    outcomes: Seq<Result<bool, String>>,
    disks: Seq<Disk>,
    n: nat,
)
    requires
        is_run(parcel, stages, outcomes, disks),
        n < stages.len(),
    ensures
        match moved_in(stages, outcomes, disks, n) {
            Some(tree) => disks[n as int].current == Some(tree),
            None => disks[n as int].current == disks[0].current || (disks[n as int].current is None
                && disks[n as int].backup == disks[0].current),
        },
        stages[n as int] is Done ==> moved_in(stages, outcomes, disks, n) is Some
            && disks[n as int].staging is None && disks[n as int].backup is None,
{
    lemma_disk_holds(parcel, stages, outcomes, disks, n);
}

/// A tree that is complete is moved in only after whatever stood there was kept
/// aside; if that move fails and the tree can be renamed back, what was installed is
/// installed again.
pub proof fn failed_installations_roll_back(
    parcel: Parcel,
    stages: Seq<Stage>,
    outcomes: Seq<Result<bool, String>>,
    disks: Seq<Disk>,
    n: nat,
)
    requires
        is_run(parcel, stages, outcomes, disks),
        n < outcomes.len(),
        stages[n as int] is Rollback,
        outcomes[n as int] is Ok,
    ensures
        disks[n as int + 1].current == disks[0].current,
        stages[n as int + 1] is Failed,
{
    lemma_disk_holds(parcel, stages, outcomes, disks, n);
    assert(stages[n as int + 1] == next_stage(parcel.kind, stages[n as int], outcomes[n as int]));
}

/// Only a tree that is complete takes the place of the installed one: before the installed
/// tree is set aside, and before the new one is moved in, the staged tree is all that it
/// is to be.
pub proof fn only_complete_trees_take_over(
    parcel: Parcel,
    stages: Seq<Stage>,
    outcomes: Seq<Result<bool, String>>,
    disks: Seq<Disk>,
    n: nat,
)
    requires
        is_run(parcel, stages, outcomes, disks),
        n < stages.len(),
        stages[n as int] is MoveAside || stages[n as int] is MoveIn,
    ensures
        disks[n as int].staging == Some(new_tree(parcel, disks[0].current)),
{
    lemma_disk_holds(parcel, stages, outcomes, disks, n);
}

/// An addon that is installed is what its archive unpacks to, with the note of its
/// version over it. Nothing of what was installed before is in it, and neither the
/// staged tree nor the one kept aside is left.
pub proof fn installed_addons_hold_their_archive(
    release: RegistryVersion,
    unpacked: Tree,
    stages: Seq<Stage>,
    outcomes: Seq<Result<bool, String>>,
    disks: Seq<Disk>,
    n: nat,
)
    requires
        is_run(addon_parcel(release, unpacked), stages, outcomes, disks),
        n < stages.len(),
        stages[n as int] is Done,
    ensures
        disks[n as int] == (Disk {
            staging: None,
            current: Some(
                unpacked.insert(VERSION_FILE@, Content::Version(noted_version(release))),
            ),
            backup: None,
        }),
{
    lemma_disk_holds(addon_parcel(release, unpacked), stages, outcomes, disks, n);
}

/// Whether `name` is the name of something that outlives a server.
pub open spec fn outlives(name: Seq<char>) -> bool {
    ||| name == "worlds"@
    ||| name == "server.properties"@
    ||| name == "allowlist.json"@
    ||| name == "permissions.json"@
}

/// What outlives a server is what is carried over.
proof fn lemma_outlives(name: Seq<char>)
    ensures
        outlives(name) == preserved_names().contains(name),
{
    let names = preserved_names();
    assert(names[0] == "worlds"@);
    assert(names[1] == "server.properties"@);
    assert(names[2] == "allowlist.json"@);
    assert(names[3] == "permissions.json"@);
}

proof fn lemma_all_carried(tree: Tree, old: Tree, count: nat, name: Seq<char>)
    requires
        count <= preserved_names().len(),
    ensures
        ({
            let carried = with_all_carried(tree, old, count);
            if preserved_names().take(count as int).contains(name) && old.contains_key(name) {
                carried.contains_key(name) && carried[name] == old[name]
            } else {
                carried.contains_key(name) == tree.contains_key(name) && (tree.contains_key(name)
                    ==> carried[name] == tree[name])
            }
        }),
    decreases count,
{
    if count > 0 {
        lemma_all_carried(tree, old, (count - 1) as nat, name);
        let names = preserved_names();
        assert(names.take(count as int).drop_last() =~= names.take(count - 1));
        assert(names.take(count as int).last() == names[count - 1]);
        if names.take(count - 1).contains(name) {
            let i = names.take(count - 1).index_of(name);
            assert(names.take(count as int)[i] == name);
        }
        if names.take(count as int).contains(name) && name != names[count - 1] {
            let i = names.take(count as int).index_of(name);
            assert(names.take(count - 1)[i] == name);
        }
    }
}

/// A server that is installed where `disks[0].current` was before. What outlives a
/// server is, wherever the server before had it, what the server before had, even if the
/// archive has something of that name. Everything else is what the archive unpacks to,
/// with the note of its origin over it. The program is there, and neither the staged tree
/// nor the one kept aside is left.
pub proof fn installed_servers_hold_their_archive_and_what_outlives(
    url: Seq<char>,
    unpacked: Tree,
    stages: Seq<Stage>,
    outcomes: Seq<Result<bool, String>>,
    disks: Seq<Disk>,
    n: nat,
)
    requires
        is_run(server_parcel(url, unpacked), stages, outcomes, disks),
        n < stages.len(),
        stages[n as int] is Done,
    ensures
        disks[n as int].staging is None,
        disks[n as int].backup is None,
        disks[n as int].current is Some,
        ({
            let old = disks[0].current;
            let new = disks[n as int].current->0;
            let noted = unpacked.insert(ORIGIN_FILE@, Content::Origin(url));
            &&& forall|name: Seq<char>|
                old is Some && outlives(name) && #[trigger] old->0.contains_key(name)
                    ==> new.contains_key(name) && new[name] == old->0[name]
            &&& forall|name: Seq<char>|
                !(old is Some && outlives(name) && old->0.contains_key(name))
                    ==> #[trigger] new.contains_key(name) == noted.contains_key(name) && (
                noted.contains_key(name) ==> new[name] == noted[name])
            &&& new.contains_key(EXECUTABLE@)
            &&& new.contains_key(ORIGIN_FILE@) && new[ORIGIN_FILE@] == Content::Origin(url)
        }),
{
    let parcel = server_parcel(url, unpacked);
    let names = preserved_names();
    lemma_disk_holds(parcel, stages, outcomes, disks, n);
    assert(names.take(PRESERVED_COUNT as int) =~= names);
    if disks[0].current is Some {
        let old = disks[0].current->0;
        let new = disks[n as int].current->0;
        let noted = noted_tree(parcel);
        assert forall|name: Seq<char>| outlives(name) && #[trigger] old.contains_key(
            name,
        ) implies new.contains_key(name) && new[name] == old[name] by {
            lemma_outlives(name);
            lemma_all_carried(noted, old, PRESERVED_COUNT as nat, name);
        }
        assert forall|name: Seq<char>| !(outlives(name) && old.contains_key(name)) implies #[trigger] new.contains_key(
            name,
        ) == noted.contains_key(name) && (noted.contains_key(name) ==> new[name] == noted[name]) by {
            lemma_outlives(name);
            lemma_all_carried(noted, old, PRESERVED_COUNT as nat, name);
        }
        lemma_all_carried(noted, old, PRESERVED_COUNT as nat, EXECUTABLE@);
        lemma_all_carried(noted, old, PRESERVED_COUNT as nat, ORIGIN_FILE@);
    }
    lemma_notes_do_not_outlive();
    lemma_outlives(ORIGIN_FILE@);
}

/// The note of a server's origin is not carried over.
proof fn lemma_notes_do_not_outlive()
    ensures
        !outlives(ORIGIN_FILE@),
{
    reveal_strlit(".werewolf-bds.json");
    reveal_strlit("worlds");
    reveal_strlit("server.properties");
    reveal_strlit("allowlist.json");
    reveal_strlit("permissions.json");
    assert(ORIGIN_FILE@[0] == '.');
    assert("worlds"@[0] == 'w');
    assert("server.properties"@[0] == 's');
    assert("allowlist.json"@[0] == 'a');
    assert("permissions.json"@[0] == 'p');
}

/// Carrying something over, from the question whether it is there to what comes after,
/// puts what the installed tree has under that name in the place of what the new tree had
/// there, or leaves the new tree as it was if the installed tree has nothing there. The
/// rest of the new tree stays, and so does the installed tree.
pub proof fn carrying_over_replaces_one_name(
    parcel: Parcel,
    stages: Seq<Stage>,
    outcomes: Seq<Result<bool, String>>,
    disks: Seq<Disk>,
    item: usize,
    n: nat,
    m: nat,
)
    requires
        is_run(parcel, stages, outcomes, disks),
        parcel.kind is Server,
        item < PRESERVED_COUNT,
        n < m < stages.len(),
        stages[n as int] == Stage::Preserve(item, PreserveStep::Source),
        stages[m as int] == after_preserving(item),
    ensures
        disks[n as int].staging is Some,
        disks[n as int].current is Some,
        disks[m as int].staging == Some(
            with_carried(
                disks[n as int].staging->0,
                disks[n as int].current->0,
                preserved_names()[item as int],
            ),
        ),
        disks[m as int].current == disks[n as int].current,
        disks[m as int].backup == disks[n as int].backup,
{
    lemma_disk_holds(parcel, stages, outcomes, disks, n);
    lemma_disk_holds(parcel, stages, outcomes, disks, m);
    lemma_not_yet_moved_in(parcel, stages, outcomes, disks, n);
    lemma_not_yet_moved_in(parcel, stages, outcomes, disks, m);
}

/// No tree has been moved in while something is carried over or the installed tree is
/// set aside.
proof fn lemma_not_yet_moved_in(
    parcel: Parcel,
    stages: Seq<Stage>,
    outcomes: Seq<Result<bool, String>>,
    disks: Seq<Disk>,
    n: nat,
)
    requires
        is_run(parcel, stages, outcomes, disks),
        n < stages.len(),
        stages[n as int] is Preserve || stages[n as int] is MoveAside,
    ensures
        moved_in(stages, outcomes, disks, n) is None,
{
    lemma_disk_holds(parcel, stages, outcomes, disks, n);
}

/// Every operation works on what is there: trees are removed and moved only where they
/// are, a tree is moved only to where none is, what stands in the way of something that
/// is carried over is removed only where something does, and something is copied only
/// where it is, to where nothing is.
pub proof fn operations_find_what_they_need(
    parcel: Parcel,
    stages: Seq<Stage>,
    outcomes: Seq<Result<bool, String>>,
    disks: Seq<Disk>,
    n: nat,
)
    requires
        is_run(parcel, stages, outcomes, disks),
        n < stages.len(),
    ensures
        ({
            let disk = disks[n as int];
            match stages[n as int] {
                Stage::ClearStaging | Stage::Discard(_) => disk.staging is Some,
                Stage::ClearBackup | Stage::ClearOld => disk.backup is Some,
                Stage::CreateStaging => disk.staging is None,
                Stage::Preserve(item, step) => {
                    let name = preserved_names()[item as int];
                    &&& disk.current is Some
                    &&& disk.staging is Some
                    &&& step is RemoveTree || step is RemoveFile
                        ==> disk.staging->0.contains_key(name)
                    &&& step is Copy ==> disk.current->0.contains_key(name)
                        && !disk.staging->0.contains_key(name)
                },
                Stage::MoveAside => disk.current is Some && disk.backup is None,
                Stage::MoveIn => disk.staging is Some && disk.current is None,
                Stage::Rollback(_) => disk.backup is Some && disk.current is None,
                _ => true,
            }
        }),
    decreases n,
{
    lemma_disk_holds(parcel, stages, outcomes, disks, n);
    if n > 0 {
        lemma_disk_holds(parcel, stages, outcomes, disks, (n - 1) as nat);
        operations_find_what_they_need(parcel, stages, outcomes, disks, (n - 1) as nat);
        assert(stages[n as int] == next_stage(parcel.kind, stages[n - 1], outcomes[n - 1]));
        assert(may_become(
            parcel,
            stages[n - 1],
            outcomes[n - 1],
            disks[n - 1],
            disks[n as int],
        ));
    }
}

/// Where a new tree cannot be moved in and one was installed before, that one is moved
/// back, and only then is the installation given up.
pub proof fn trees_that_cannot_be_moved_in_are_rolled_back(
    parcel: Parcel,
    stages: Seq<Stage>,
    outcomes: Seq<Result<bool, String>>,
    disks: Seq<Disk>,
    n: int,
)
    requires
        is_run(parcel, stages, outcomes, disks),
        0 <= n,
        n + 3 < stages.len(),
        stages[n] is MoveIn,
        outcomes[n] is Err,
        disks[0].current is Some,
    ensures
        stages[n + 2] is Rollback,
        stages[n + 3] is Failed,
{
    lemma_disk_holds(parcel, stages, outcomes, disks, n as nat);
    assert(may_become(parcel, stages[n], outcomes[n], disks[n], disks[n + 1]));
    assert(stages[n + 1] == next_stage(parcel.kind, stages[n], outcomes[n]));
    assert(may_become(parcel, stages[n + 1], outcomes[n + 1], disks[n + 1], disks[n + 2]));
    assert(stages[n + 2] == next_stage(parcel.kind, stages[n + 1], outcomes[n + 1]));
    assert(stages[n + 3] == next_stage(parcel.kind, stages[n + 2], outcomes[n + 2]));
}

/// What was unpacked of an addon whose archive cannot be unpacked is discarded, and only
/// then is the installation given up.
pub proof fn addons_that_cannot_be_unpacked_are_discarded(
    parcel: Parcel,
    stages: Seq<Stage>,
    outcomes: Seq<Result<bool, String>>,
    disks: Seq<Disk>,
    n: int,
)
    requires
        is_run(parcel, stages, outcomes, disks),
        parcel.kind is Addon,
        0 <= n,
        n + 3 < stages.len(),
        stages[n] is Unpack,
        outcomes[n] is Err,
        disks[n + 1].staging is Some,
    ensures
        stages[n + 2] is Discard,
        stages[n + 3] is Failed,
        outcomes[n + 2] is Ok ==> disks[n + 3].staging is None,
        disks[n + 3].current == disks[0].current,
{
    lemma_disk_holds(parcel, stages, outcomes, disks, n as nat);
    assert(may_become(parcel, stages[n], outcomes[n], disks[n], disks[n + 1]));
    assert(stages[n + 1] == next_stage(parcel.kind, stages[n], outcomes[n]));
    assert(may_become(parcel, stages[n + 1], outcomes[n + 1], disks[n + 1], disks[n + 2]));
    assert(stages[n + 2] == next_stage(parcel.kind, stages[n + 1], outcomes[n + 1]));
    assert(may_become(parcel, stages[n + 2], outcomes[n + 2], disks[n + 2], disks[n + 3]));
    assert(stages[n + 3] == next_stage(parcel.kind, stages[n + 2], outcomes[n + 2]));
}

} // verus!
