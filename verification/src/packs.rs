//! The course of applying addons to the server: each addon's packs are copied to where
//! the server looks for them, and the world gets a list of the packs of each kind.

use vstd::prelude::*;

use crate::failure::outcome;
use crate::text::{
    chars_of, is_blank, only_white_space_is_trimmed_to_nothing, trim, trimmed,
};

verus! {

/// The kind of a pack.
pub enum PackKind {
    /// What changes how the world behaves.
    Behavior,
    /// What changes how the world looks.
    Resource,
}

/// What a pack says of itself.
pub struct PackHeader {
    pub uuid: String,
    pub version: Vec<u32>,
}

/// A pack as the world lists it.
pub struct WorldPack {
    pub pack_id: String,
    pub version: Vec<u32>,
}

/// The value of a [`WorldPack`].
pub struct WorldPackView {
    pub pack_id: Seq<char>,
    pub version: Seq<u32>,
}

impl View for WorldPack {
    type V = WorldPackView;

    open spec fn view(&self) -> WorldPackView {
        WorldPackView { pack_id: self.pack_id@, version: self.version@ }
    }
}

impl View for PackHeader {
    type V = WorldPackView;

    open spec fn view(&self) -> WorldPackView {
        WorldPackView { pack_id: self.uuid@, version: self.version@ }
    }
}

/// The name of the directory of an addon that holds its pack of this kind.
pub fn source_name(kind: &PackKind) -> (name: &'static str)
    ensures
        name@ == match *kind {
            PackKind::Behavior => "BP"@,
            PackKind::Resource => "RP"@,
        },
{
    match kind {
        PackKind::Behavior => "BP",
        PackKind::Resource => "RP",
    }
}

/// The name of the directory in which the server looks for packs of this kind.
pub fn target_name(kind: &PackKind) -> (name: &'static str)
    ensures
        name@ == match *kind {
            PackKind::Behavior => "behavior_packs"@,
            PackKind::Resource => "resource_packs"@,
        },
{
    match kind {
        PackKind::Behavior => "behavior_packs",
        PackKind::Resource => "resource_packs",
    }
}

/// The name of the file in which the world lists its packs of this kind.
pub fn list_name(kind: &PackKind) -> (name: &'static str)
    ensures
        name@ == match *kind {
            PackKind::Behavior => "world_behavior_packs.json"@,
            PackKind::Resource => "world_resource_packs.json"@,
        },
{
    match kind {
        PackKind::Behavior => "world_behavior_packs.json",
        PackKind::Resource => "world_resource_packs.json",
    }
}

/// Whether a pack can be listed: its version has three numbers and its id is not blank.
pub open spec fn is_listable(pack: WorldPackView) -> bool {
    pack.version.len() == 3 && trim(pack.pack_id).len() > 0
}

/// Whether a pack's version has three numbers, and its id holds something other than
/// white space.
pub open spec fn has_three_numbers_and_an_id(pack: WorldPackView) -> bool {
    &&& pack.version.len() == 3
    &&& exists|i: int| 0 <= i < pack.pack_id.len() && !is_blank(#[trigger] pack.pack_id[i])
}

impl PackHeader {
    /// Whether the pack can be listed.
    pub fn is_valid(&self) -> (valid: bool)
        ensures
            valid == is_listable(self@),
            valid == has_three_numbers_and_an_id(self@),
    {
        proof {
            packs_need_three_numbers_and_an_id(self@);
        }
        if self.version.len() != 3 {
            return false;
        }
        let chars: Vec<char> = chars_of(self.uuid.as_str());
        let (from, to) = trimmed(chars.as_slice(), 0);
        proof {
            assert(chars@.skip(0) =~= self.uuid@);
            assert(chars@.subrange(from as int, to as int).len() == to - from);
        }
        from < to
    }
}

/// How far the addons have been applied.
pub struct PackProgress {
    pub addon_ids: Vec<String>,
    /// Which addon is at hand.
    pub index: usize,
    /// Which of its packs is at hand.
    pub kind: PackKind,
    /// The packs of each kind that have been applied.
    pub behavior: Vec<WorldPack>,
    pub resources: Vec<WorldPack>,
}

/// The value of a [`PackProgress`].
#[verifier::ext_equal]
pub struct PackProgressView {
    pub addon_ids: Seq<Seq<char>>,
    pub index: int,
    pub kind: PackKind,
    pub behavior: Seq<WorldPackView>,
    pub resources: Seq<WorldPackView>,
}

/// The values of a list of packs.
pub open spec fn pack_views(packs: Seq<WorldPack>) -> Seq<WorldPackView> {
    packs.map_values(|pack: WorldPack| pack@)
}

/// The values of a list of addon ids.
pub open spec fn id_views(ids: Seq<String>) -> Seq<Seq<char>> {
    ids.map_values(|id: String| id@)
}

impl View for PackProgress {
    type V = PackProgressView;

    open spec fn view(&self) -> PackProgressView {
        PackProgressView {
            addon_ids: id_views(self.addon_ids@),
            index: self.index as int,
            kind: self.kind,
            behavior: pack_views(self.behavior@),
            resources: pack_views(self.resources@),
        }
    }
}

/// Is the pack there?
pub struct InspectPack {
    pub progress: PackProgress,
}

/// Read what the pack says of itself.
pub struct ReadManifest {
    pub progress: PackProgress,
}

/// Does something stand where the pack goes?
pub struct CheckTarget {
    pub progress: PackProgress,
    pub header: PackHeader,
}

/// Remove what stands where the pack goes.
pub struct RemoveTarget {
    pub progress: PackProgress,
    pub header: PackHeader,
}

/// Copy the pack.
pub struct CopyPack {
    pub progress: PackProgress,
    pub header: PackHeader,
}

/// Create the directory of the world.
pub struct CreateWorld {
    pub progress: PackProgress,
}

/// Write the list of behavior packs.
pub struct WriteBehavior {
    pub progress: PackProgress,
}

/// Write the list of resource packs.
pub struct WriteResources {
    pub progress: PackProgress,
}

/// The step at hand. Whoever applies the addons performs it and hands the outcome back
/// with `resume`, until the step is `Finished`, with the numbers of packs of each kind,
/// or `Failed`.
pub enum PackStep {
    Inspect(InspectPack),
    ReadManifest(ReadManifest),
    CheckTarget(CheckTarget),
    RemoveTarget(RemoveTarget),
    Copy(CopyPack),
    CreateWorld(CreateWorld),
    WriteBehavior(WriteBehavior),
    WriteResources(WriteResources),
    Finished(usize, usize),
    Failed(String),
}

/// The value of a [`PackStep`].
#[verifier::ext_equal]
pub enum PackStepView {
    Inspect(PackProgressView),
    ReadManifest(PackProgressView),
    CheckTarget(PackProgressView, WorldPackView),
    RemoveTarget(PackProgressView, WorldPackView),
    Copy(PackProgressView, WorldPackView),
    CreateWorld(PackProgressView),
    WriteBehavior(PackProgressView),
    WriteResources(PackProgressView),
    Finished(nat, nat),
    Failed(Seq<char>),
}

impl View for PackStep {
    type V = PackStepView;

    open spec fn view(&self) -> PackStepView {
        match *self {
            PackStep::Inspect(step) => PackStepView::Inspect(step.progress@),
            PackStep::ReadManifest(step) => PackStepView::ReadManifest(step.progress@),
            PackStep::CheckTarget(step) => PackStepView::CheckTarget(step.progress@, step.header@),
            PackStep::RemoveTarget(step) => PackStepView::RemoveTarget(step.progress@, step.header@),
            PackStep::Copy(step) => PackStepView::Copy(step.progress@, step.header@),
            PackStep::CreateWorld(step) => PackStepView::CreateWorld(step.progress@),
            PackStep::WriteBehavior(step) => PackStepView::WriteBehavior(step.progress@),
            PackStep::WriteResources(step) => PackStepView::WriteResources(step.progress@),
            PackStep::Finished(behavior, resources) => PackStepView::Finished(
                behavior as nat,
                resources as nat,
            ),
            PackStep::Failed(message) => PackStepView::Failed(message@),
        }
    }
}

/// The outcome of a step.
pub enum PackEvent {
    Inspected(bool),
    ManifestRead(Result<WorldPackView, Seq<char>>),
    TargetChecked(bool),
    TargetRemoved(Result<(), Seq<char>>),
    Copied(Result<(), Seq<char>>),
    WorldCreated(Result<(), Seq<char>>),
    BehaviorWritten(Result<(), Seq<char>>),
    ResourcesWritten(Result<(), Seq<char>>),
}

/// The step that takes up the pack at hand, or the lists if no pack is left.
pub open spec fn taken_up(progress: PackProgressView) -> PackStepView {
    if progress.index < progress.addon_ids.len() {
        PackStepView::Inspect(progress)
    } else {
        PackStepView::CreateWorld(progress)
    }
}

/// The progress with the next pack at hand.
pub open spec fn moved_on(progress: PackProgressView) -> PackProgressView {
    match progress.kind {
        PackKind::Behavior => PackProgressView { kind: PackKind::Resource, ..progress },
        PackKind::Resource => PackProgressView {
            index: progress.index + 1,
            kind: PackKind::Behavior,
            ..progress
        },
    }
}

/// The progress with the pack at hand applied.
pub open spec fn with_pack(progress: PackProgressView, pack: WorldPackView) -> PackProgressView {
    match progress.kind {
        PackKind::Behavior => PackProgressView {
            behavior: progress.behavior.push(pack),
            ..progress
        },
        PackKind::Resource => PackProgressView {
            resources: progress.resources.push(pack),
            ..progress
        },
    }
}

/// The step that begins the application of these addons.
pub open spec fn first_step(addon_ids: Seq<Seq<char>>) -> PackStepView {
    taken_up(
        PackProgressView {
            addon_ids,
            index: 0,
            kind: PackKind::Behavior,
            behavior: Seq::empty(),
            resources: Seq::empty(),
        },
    )
}

/// The step that follows an operation that had to succeed.
pub open spec fn unless_failed(outcome: Result<(), Seq<char>>, next: PackStepView) -> PackStepView {
    match outcome {
        Ok(()) => next,
        Err(detail) => PackStepView::Failed(detail),
    }
}

/// The step that follows from an outcome. An outcome of another step changes nothing.
pub open spec fn after(step: PackStepView, event: PackEvent) -> PackStepView {
    match (step, event) {
        (PackStepView::Inspect(progress), PackEvent::Inspected(found)) => if found {
            PackStepView::ReadManifest(progress)
        } else {
            taken_up(moved_on(progress))
        },
        (PackStepView::ReadManifest(progress), PackEvent::ManifestRead(read)) => match read {
            Ok(pack) => if is_listable(pack) {
                PackStepView::CheckTarget(progress, pack)
            } else {
                PackStepView::Failed("pack manifest header is invalid"@)
            },
            Err(detail) => PackStepView::Failed(detail),
        },
        (PackStepView::CheckTarget(progress, pack), PackEvent::TargetChecked(found)) => if found {
            PackStepView::RemoveTarget(progress, pack)
        } else {
            PackStepView::Copy(progress, pack)
        },
        (
            PackStepView::RemoveTarget(progress, pack),
            PackEvent::TargetRemoved(removed),
        ) => unless_failed(removed, PackStepView::Copy(progress, pack)),
        (PackStepView::Copy(progress, pack), PackEvent::Copied(copied)) => unless_failed(
            copied,
            taken_up(moved_on(with_pack(progress, pack))),
        ),
        (PackStepView::CreateWorld(progress), PackEvent::WorldCreated(created)) => unless_failed(
            created,
            PackStepView::WriteBehavior(progress),
        ),
        (
            PackStepView::WriteBehavior(progress),
            PackEvent::BehaviorWritten(written),
        ) => unless_failed(written, PackStepView::WriteResources(progress)),
        (
            PackStepView::WriteResources(progress),
            PackEvent::ResourcesWritten(written),
        ) => unless_failed(
            written,
            PackStepView::Finished(progress.behavior.len(), progress.resources.len()),
        ),
        _ => step,
    }
}

/// The value of what a pack says of itself, or why it cannot be read.
pub open spec fn manifest(read: Result<PackHeader, String>) -> Result<WorldPackView, Seq<char>> {
    match read {
        Ok(header) => Ok(header@),
        Err(detail) => Err(detail@),
    }
}

/// Begins the application of these addons.
pub fn begin_packs(addon_ids: Vec<String>) -> (step: PackStep)
    ensures
        step@ == first_step(id_views(addon_ids@)),
{
    let progress = PackProgress {
        addon_ids,
        index: 0,
        kind: PackKind::Behavior,
        behavior: Vec::new(),
        resources: Vec::new(),
    };
    proof {
        assert(progress@.behavior =~= Seq::empty());
        assert(progress@.resources =~= Seq::empty());
    }
    progress.take_up()
}

impl PackProgress {
    /// Whether there is an addon at hand.
    pub fn has_addon(&self) -> (yes: bool)
        ensures
            yes == (self.index < self.addon_ids.len()),
    {
        self.index < self.addon_ids.len()
    }

    /// The id of the addon at hand.
    pub fn addon_id(&self) -> (id: &str)
        requires
            self.index < self.addon_ids.len(),
        ensures
            id@ == self@.addon_ids[self@.index],
    {
        self.addon_ids[self.index].as_str()
    }

    fn take_up(self) -> (step: PackStep)
        ensures
            step@ == taken_up(self@),
    {
        if self.index < self.addon_ids.len() {
            PackStep::Inspect(InspectPack { progress: self })
        } else {
            PackStep::CreateWorld(CreateWorld { progress: self })
        }
    }

    fn move_on(self) -> (next: Self)
        requires
            self.index < self.addon_ids.len(),
        ensures
            next@ == moved_on(self@),
    {
        let mut next: Self = self;
        match next.kind {
            PackKind::Behavior => {
                next.kind = PackKind::Resource;
            },
            PackKind::Resource => {
                next.index = next.index + 1;
                next.kind = PackKind::Behavior;
            },
        }
        next
    }
}

impl InspectPack {
    /// What follows from whether the pack is there.
    pub fn resume(self, found: bool) -> (step: PackStep)
        requires
            self.progress.index < self.progress.addon_ids.len(),
        ensures
            step@ == after(
                PackStepView::Inspect(self.progress@),
                PackEvent::Inspected(found),
            ),
    {
        if found {
            PackStep::ReadManifest(ReadManifest { progress: self.progress })
        } else {
            self.progress.move_on().take_up()
        }
    }
}

impl ReadManifest {
    /// What follows from what the pack says of itself.
    pub fn resume(self, read: Result<PackHeader, String>) -> (step: PackStep)
        ensures
            step@ == after(
                PackStepView::ReadManifest(self.progress@),
                PackEvent::ManifestRead(manifest(read)),
            ),
    {
        match read {
            Ok(header) => if header.is_valid() {
                PackStep::CheckTarget(CheckTarget { progress: self.progress, header })
            } else {
                PackStep::Failed("pack manifest header is invalid".to_owned())
            },
            Err(detail) => PackStep::Failed(detail),
        }
    }
}

impl CheckTarget {
    /// What follows from whether something stands where the pack goes.
    pub fn resume(self, found: bool) -> (step: PackStep)
        ensures
            step@ == after(
                PackStepView::CheckTarget(self.progress@, self.header@),
                PackEvent::TargetChecked(found),
            ),
    {
        if found {
            PackStep::RemoveTarget(RemoveTarget { progress: self.progress, header: self.header })
        } else {
            PackStep::Copy(CopyPack { progress: self.progress, header: self.header })
        }
    }
}

impl RemoveTarget {
    /// What follows once that was removed, or could not be.
    pub fn resume(self, removed: Result<(), String>) -> (step: PackStep)
        ensures
            step@ == after(
                PackStepView::RemoveTarget(self.progress@, self.header@),
                PackEvent::TargetRemoved(outcome(removed)),
            ),
    {
        match removed {
            Ok(()) => PackStep::Copy(CopyPack { progress: self.progress, header: self.header }),
            Err(detail) => PackStep::Failed(detail),
        }
    }
}

impl CopyPack {
    /// What follows once the pack was copied, or could not be.
    pub fn resume(self, copied: Result<(), String>) -> (step: PackStep)
        requires
            self.progress.index < self.progress.addon_ids.len(),
        ensures
            step@ == after(
                PackStepView::Copy(self.progress@, self.header@),
                PackEvent::Copied(outcome(copied)),
            ),
    {
        match copied {
            Ok(()) => {
                let ghost before = self.progress@;
                let pack = WorldPack { pack_id: self.header.uuid, version: self.header.version };
                let mut progress: PackProgress = self.progress;
                match progress.kind {
                    PackKind::Behavior => {
                        progress.behavior.push(pack);
                        assert(progress@.behavior =~= before.behavior.push(pack@));
                    },
                    PackKind::Resource => {
                        progress.resources.push(pack);
                        assert(progress@.resources =~= before.resources.push(pack@));
                    },
                }
                assert(progress@ == with_pack(before, pack@));
                progress.move_on().take_up()
            },
            Err(detail) => PackStep::Failed(detail),
        }
    }
}

impl CreateWorld {
    /// What follows once the directory of the world was created, or could not be.
    pub fn resume(self, created: Result<(), String>) -> (step: PackStep)
        ensures
            step@ == after(
                PackStepView::CreateWorld(self.progress@),
                PackEvent::WorldCreated(outcome(created)),
            ),
    {
        match created {
            Ok(()) => PackStep::WriteBehavior(WriteBehavior { progress: self.progress }),
            Err(detail) => PackStep::Failed(detail),
        }
    }
}

impl WriteBehavior {
    /// What follows once the list was written, or could not be.
    pub fn resume(self, written: Result<(), String>) -> (step: PackStep)
        ensures
            step@ == after(
                PackStepView::WriteBehavior(self.progress@),
                PackEvent::BehaviorWritten(outcome(written)),
            ),
    {
        match written {
            Ok(()) => PackStep::WriteResources(WriteResources { progress: self.progress }),
            Err(detail) => PackStep::Failed(detail),
        }
    }
}

impl WriteResources {
    /// What follows once the list was written, or could not be.
    pub fn resume(self, written: Result<(), String>) -> (step: PackStep)
        ensures
            step@ == after(
                PackStepView::WriteResources(self.progress@),
                PackEvent::ResourcesWritten(outcome(written)),
            ),
    {
        match written {
            Ok(()) => PackStep::Finished(
                self.progress.behavior.len(),
                self.progress.resources.len(),
            ),
            Err(detail) => PackStep::Failed(detail),
        }
    }
}

/// The step that a sequence of outcomes leads to.
pub open spec fn after_all(step: PackStepView, events: Seq<PackEvent>) -> PackStepView
    decreases events.len(),
{
    if events.len() == 0 {
        step
    } else {
        after(after_all(step, events.drop_last()), events.last())
    }
}

/// The progress that a step belongs to.
pub open spec fn progress_of(step: PackStepView) -> Option<PackProgressView> {
    match step {
        PackStepView::Inspect(progress) => Some(progress),
        PackStepView::ReadManifest(progress) => Some(progress),
        PackStepView::CheckTarget(progress, _) => Some(progress),
        PackStepView::RemoveTarget(progress, _) => Some(progress),
        PackStepView::Copy(progress, _) => Some(progress),
        PackStepView::CreateWorld(progress) => Some(progress),
        PackStepView::WriteBehavior(progress) => Some(progress),
        PackStepView::WriteResources(progress) => Some(progress),
        PackStepView::Finished(_, _) => None,
        PackStepView::Failed(_) => None,
    }
}

/// Whether the step deals with one pack, and not with the lists.
pub open spec fn deals_with_a_pack(step: PackStepView) -> bool {
    step is Inspect || step is ReadManifest || step is CheckTarget || step is RemoveTarget
        || step is Copy
}

/// What holds of every step of applying these addons.
pub open spec fn step_holds(addon_ids: Seq<Seq<char>>, step: PackStepView) -> bool {
    &&& progress_of(step) matches Some(progress) ==> {
        &&& progress.addon_ids == addon_ids
        &&& 0 <= progress.index <= addon_ids.len()
        &&& progress.index < addon_ids.len() <==> deals_with_a_pack(step)
        &&& forall|i: int|
            0 <= i < progress.behavior.len() ==> is_listable(#[trigger] progress.behavior[i])
        &&& forall|i: int|
            0 <= i < progress.resources.len() ==> is_listable(#[trigger] progress.resources[i])
    }
    &&& step matches PackStepView::CheckTarget(_, pack) ==> is_listable(pack)
    &&& step matches PackStepView::RemoveTarget(_, pack) ==> is_listable(pack)
    &&& step matches PackStepView::Copy(_, pack) ==> is_listable(pack)
}

/// Whatever the outcomes are: the lists are written only when every addon was dealt
/// with, and they list only packs that can be listed. Nothing is removed or copied for
/// another pack.
pub proof fn only_listable_packs_are_applied(
    addon_ids: Seq<Seq<char>>,
    events: Seq<PackEvent>,
)
    ensures
        step_holds(addon_ids, after_all(first_step(addon_ids), events)),
    decreases events.len(),
{
    if events.len() > 0 {
        only_listable_packs_are_applied(addon_ids, events.drop_last());
    }
}

/// The packs that are there, in order.
pub open spec fn listed(packs: Seq<Option<WorldPackView>>) -> Seq<WorldPackView>
    decreases packs.len(),
{
    if packs.len() == 0 {
        Seq::empty()
    } else {
        match packs.last() {
            Some(pack) => listed(packs.drop_last()).push(pack),
            None => listed(packs.drop_last()),
        }
    }
}

/// The pack at hand, where `behavior` and `resources` are the packs of the addons.
pub open spec fn pack_at_hand(
    progress: PackProgressView,
    behavior: Seq<Option<WorldPackView>>,
    resources: Seq<Option<WorldPackView>>,
) -> Option<WorldPackView> {
    match progress.kind {
        PackKind::Behavior => behavior[progress.index],
        PackKind::Resource => resources[progress.index],
    }
}

/// Whether `event` is what comes of `step` where `behavior` and `resources` are the
/// packs of the addons and no operation fails.
pub open spec fn goes_well(
    step: PackStepView,
    event: PackEvent,
    behavior: Seq<Option<WorldPackView>>,
    resources: Seq<Option<WorldPackView>>,
) -> bool {
    match (step, event) {
        (PackStepView::Inspect(progress), PackEvent::Inspected(found)) => found == (pack_at_hand(
            progress,
            behavior,
            resources,
        ) is Some),
        (
            PackStepView::ReadManifest(progress),
            PackEvent::ManifestRead(Ok(pack)),
        ) => pack_at_hand(progress, behavior, resources) == Some(pack)
            && has_three_numbers_and_an_id(pack),
        (PackStepView::CheckTarget(_, _), PackEvent::TargetChecked(_)) => true,
        (PackStepView::RemoveTarget(_, _), PackEvent::TargetRemoved(Ok(()))) => true,
        (PackStepView::Copy(_, _), PackEvent::Copied(Ok(()))) => true,
        (PackStepView::CreateWorld(_), PackEvent::WorldCreated(Ok(()))) => true,
        (PackStepView::WriteBehavior(_), PackEvent::BehaviorWritten(Ok(()))) => true,
        (PackStepView::WriteResources(_), PackEvent::ResourcesWritten(Ok(()))) => true,
        _ => false,
    }
}

/// Whether each event is what comes of the step before it, as [`goes_well`] says.
pub open spec fn all_goes_well(
    addon_ids: Seq<Seq<char>>,
    events: Seq<PackEvent>,
    behavior: Seq<Option<WorldPackView>>,
    resources: Seq<Option<WorldPackView>>,
) -> bool
    decreases events.len(),
{
    events.len() > 0 ==> {
        &&& all_goes_well(addon_ids, events.drop_last(), behavior, resources)
        &&& goes_well(
            after_all(first_step(addon_ids), events.drop_last()),
            events.last(),
            behavior,
            resources,
        )
    }
}

/// Whether the step has listed the packs of the addons as far as it has come.
pub open spec fn lists_follow(
    step: PackStepView,
    behavior: Seq<Option<WorldPackView>>,
    resources: Seq<Option<WorldPackView>>,
) -> bool {
    &&& progress_of(step) matches Some(progress) ==> {
        &&& progress.resources == listed(resources.take(progress.index))
        &&& progress.behavior == listed(
            behavior.take(
                if progress.kind is Resource {
                    progress.index + 1
                } else {
                    progress.index
                },
            ),
        )
        &&& deals_with_a_pack(step) || progress.kind is Behavior
    }
    &&& step matches PackStepView::ReadManifest(progress) ==> pack_at_hand(
        progress,
        behavior,
        resources,
    ) is Some
    &&& step matches PackStepView::CheckTarget(progress, pack) ==> pack_at_hand(
        progress,
        behavior,
        resources,
    ) == Some(pack)
    &&& step matches PackStepView::RemoveTarget(progress, pack) ==> pack_at_hand(
        progress,
        behavior,
        resources,
    ) == Some(pack)
    &&& step matches PackStepView::Copy(progress, pack) ==> pack_at_hand(
        progress,
        behavior,
        resources,
    ) == Some(pack)
    &&& step matches PackStepView::WriteBehavior(progress) ==> progress.behavior == listed(behavior)
    &&& step matches PackStepView::WriteResources(progress) ==> progress.resources == listed(
        resources,
    )
    &&& step matches PackStepView::Finished(b, r) ==> b == listed(behavior).len() && r == listed(
        resources,
    ).len()
    &&& step !is Failed
}

proof fn lemma_listed_grows(packs: Seq<Option<WorldPackView>>, n: int)
    requires
        0 <= n < packs.len(),
    ensures
        listed(packs.take(n + 1)) == match packs[n] {
            Some(pack) => listed(packs.take(n)).push(pack),
            None => listed(packs.take(n)),
        },
{
    assert(packs.take(n + 1).drop_last() =~= packs.take(n));
}

/// Where no operation fails, the world lists, in the order of the addons, every pack of
/// theirs that is there and no other, and the numbers given at the end count them.
pub proof fn lists_follow_the_addons(
    addon_ids: Seq<Seq<char>>,
    events: Seq<PackEvent>,
    behavior: Seq<Option<WorldPackView>>,
    resources: Seq<Option<WorldPackView>>,
)
    requires
        behavior.len() == addon_ids.len(),
        resources.len() == addon_ids.len(),
        all_goes_well(addon_ids, events, behavior, resources),
    ensures
        lists_follow(after_all(first_step(addon_ids), events), behavior, resources),
    decreases events.len(),
{
    let before = after_all(first_step(addon_ids), events.drop_last());
    if events.len() == 0 {
        assert(behavior.take(0).len() == 0);
        assert(resources.take(0).len() == 0);
    } else {
        lists_follow_the_addons(addon_ids, events.drop_last(), behavior, resources);
        only_listable_packs_are_applied(addon_ids, events.drop_last());
        if let PackEvent::ManifestRead(Ok(pack)) = events.last() {
            packs_need_three_numbers_and_an_id(pack);
        }
        if let Some(progress) = progress_of(before) {
            assert(behavior.take(behavior.len() as int) =~= behavior);
            assert(resources.take(resources.len() as int) =~= resources);
            if deals_with_a_pack(before) {
                lemma_listed_grows(behavior, progress.index);
                lemma_listed_grows(resources, progress.index);
            }
        }
    }
}

/// Whether `event` is an outcome of `step`.
pub open spec fn is_outcome_of(event: PackEvent, step: PackStepView) -> bool {
    match step {
        PackStepView::Inspect(_) => event is Inspected,
        PackStepView::ReadManifest(_) => event is ManifestRead,
        PackStepView::CheckTarget(_, _) => event is TargetChecked,
        PackStepView::RemoveTarget(_, _) => event is TargetRemoved,
        PackStepView::Copy(_, _) => event is Copied,
        PackStepView::CreateWorld(_) => event is WorldCreated,
        PackStepView::WriteBehavior(_) => event is BehaviorWritten,
        PackStepView::WriteResources(_) => event is ResourcesWritten,
        PackStepView::Finished(_, _) => false,
        PackStepView::Failed(_) => false,
    }
}

/// How many packs are left, with the one at hand.
pub open spec fn packs_left(progress: PackProgressView) -> int {
    2 * (progress.addon_ids.len() - progress.index) - match progress.kind {
        PackKind::Behavior => 0int,
        PackKind::Resource => 1int,
    }
}

/// How many steps the application can have left, at most.
pub open spec fn steps_left(step: PackStepView) -> int {
    match step {
        PackStepView::Inspect(progress) => 5 * packs_left(progress) + 3,
        PackStepView::ReadManifest(progress) => 5 * packs_left(progress) + 2,
        PackStepView::CheckTarget(progress, _) => 5 * packs_left(progress) + 1,
        PackStepView::RemoveTarget(progress, _) => 5 * packs_left(progress),
        PackStepView::Copy(progress, _) => 5 * packs_left(progress) - 1,
        PackStepView::CreateWorld(_) => 3,
        PackStepView::WriteBehavior(_) => 2,
        PackStepView::WriteResources(_) => 1,
        PackStepView::Finished(_, _) => 0,
        PackStepView::Failed(_) => 0,
    }
}

/// The application of addons ends, whatever the outcomes: each of them leaves fewer
/// steps to come, and with none left the application has finished or failed.
pub proof fn applications_end(addon_ids: Seq<Seq<char>>, step: PackStepView, event: PackEvent)
    requires
        step_holds(addon_ids, step),
    ensures
        steps_left(step) >= 0,
        steps_left(step) == 0 <==> (step is Finished || step is Failed),
        is_outcome_of(event, step) ==> steps_left(after(step, event)) < steps_left(step),
{
}

/// A pack can be listed exactly if its version has three numbers and its id holds
/// something other than white space.
pub proof fn packs_need_three_numbers_and_an_id(pack: WorldPackView)
    ensures
        is_listable(pack) <==> has_three_numbers_and_an_id(pack),
{
    only_white_space_is_trimmed_to_nothing(pack.pack_id);
}

/// Every pack whose version has three numbers and whose id holds something other than
/// white space is taken further, as it is, and every other pack stops the application.
pub proof fn packs_are_taken_exactly_if_valid(progress: PackProgressView, pack: WorldPackView)
    ensures
        ({
            let step = after(
                PackStepView::ReadManifest(progress),
                PackEvent::ManifestRead(Ok(pack)),
            );
            if pack.version.len() == 3 && exists|i: int|
                0 <= i < pack.pack_id.len() && !is_blank(#[trigger] pack.pack_id[i]) {
                step == PackStepView::CheckTarget(progress, pack)
            } else {
                step == PackStepView::Failed("pack manifest header is invalid"@)
            }
        }),
{
    packs_need_three_numbers_and_an_id(pack);
}

/// Whether something is wrong with what came of a step: it failed, or the pack says too
/// little of itself.
pub open spec fn is_trouble(step: PackStepView, event: PackEvent) -> bool {
    match (step, event) {
        (PackStepView::ReadManifest(_), PackEvent::ManifestRead(read)) => read is Err
            || !has_three_numbers_and_an_id(read->Ok_0),
        (PackStepView::RemoveTarget(_, _), PackEvent::TargetRemoved(removed)) => removed is Err,
        (PackStepView::Copy(_, _), PackEvent::Copied(copied)) => copied is Err,
        (PackStepView::CreateWorld(_), PackEvent::WorldCreated(created)) => created is Err,
        (PackStepView::WriteBehavior(_), PackEvent::BehaviorWritten(written)) => written is Err,
        (PackStepView::WriteResources(_), PackEvent::ResourcesWritten(written)) => written is Err,
        _ => false,
    }
}

/// The application of addons fails exactly where there is trouble.
pub proof fn applications_fail_exactly_where_there_is_trouble(
    step: PackStepView,
    event: PackEvent,
)
    requires
        step !is Failed,
    ensures
        after(step, event) is Failed <==> is_trouble(step, event),
{
    if let PackEvent::ManifestRead(Ok(pack)) = event {
        packs_need_three_numbers_and_an_id(pack);
    }
}

/// A pack is copied only to where nothing stands: nothing was found there, or what was
/// found has been removed.
pub proof fn packs_are_copied_to_where_nothing_stands(step: PackStepView, event: PackEvent)
    requires
        step !is Copy,
        after(step, event) is Copy,
    ensures
        (step is CheckTarget && event == PackEvent::TargetChecked(false)) || (step is RemoveTarget
            && (event matches PackEvent::TargetRemoved(Ok(_)))),
{
}

/// Whether all goes well and each event is an outcome of the step before it, until the
/// application has finished.
pub open spec fn finishes_well(
    addon_ids: Seq<Seq<char>>,
    events: Seq<PackEvent>,
) -> bool
    decreases events.len(),
{
    events.len() > 0 ==> {
        let before = after_all(first_step(addon_ids), events.drop_last());
        &&& finishes_well(addon_ids, events.drop_last())
        &&& before is Finished || is_outcome_of(events.last(), before)
        &&& !is_trouble(before, events.last())
    }
}

/// An application of addons in which there is no trouble finishes, after at most ten steps
/// for each addon and three more.
pub proof fn applications_without_trouble_finish(
    addon_ids: Seq<Seq<char>>,
    events: Seq<PackEvent>,
)
    requires
        finishes_well(addon_ids, events),
    ensures
        ({
            let step = after_all(first_step(addon_ids), events);
            &&& step !is Failed
            &&& step is Finished || steps_left(step) + events.len() <= 10 * addon_ids.len() + 3
            &&& events.len() >= 10 * addon_ids.len() + 3 ==> step is Finished
        }),
    decreases events.len(),
{
    only_listable_packs_are_applied(addon_ids, events);
    let step = after_all(first_step(addon_ids), events);
    if events.len() > 0 {
        let front = events.drop_last();
        let before = after_all(first_step(addon_ids), front);
        applications_without_trouble_finish(addon_ids, front);
        only_listable_packs_are_applied(addon_ids, front);
        applications_fail_exactly_where_there_is_trouble(before, events.last());
        applications_end(addon_ids, before, events.last());
        applications_end(addon_ids, step, events.last());
    }
}

/// What is said where the application fails is what the operation that failed has to say.
pub proof fn failed_applications_are_told_in_full(
    progress: PackProgressView,
    pack: WorldPackView,
    why: Seq<char>,
)
    ensures
        after(PackStepView::ReadManifest(progress), PackEvent::ManifestRead(Err(why)))
            == PackStepView::Failed(why),
        after(PackStepView::RemoveTarget(progress, pack), PackEvent::TargetRemoved(Err(why)))
            == PackStepView::Failed(why),
        after(PackStepView::Copy(progress, pack), PackEvent::Copied(Err(why)))
            == PackStepView::Failed(why),
        after(PackStepView::CreateWorld(progress), PackEvent::WorldCreated(Err(why)))
            == PackStepView::Failed(why),
        after(PackStepView::WriteBehavior(progress), PackEvent::BehaviorWritten(Err(why)))
            == PackStepView::Failed(why),
        after(PackStepView::WriteResources(progress), PackEvent::ResourcesWritten(Err(why)))
            == PackStepView::Failed(why),
{
}

} // verus!
