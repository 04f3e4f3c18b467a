//! The course of an update of the addons: what to ask for next, and what follows
//! from each answer. Whoever drives it performs the step at hand and hands the
//! outcome back with `resume`, until the step is `Finished` or `Failed`.

use vstd::prelude::*;

use crate::failure::{outcome, worded, HttpFailure, HttpStage};
use crate::text::{decimal, join, same_text, writes_in_hex};
use crate::updater::{
    absolute_url, addon_ids_are_small_letters_digits_and_hyphens, archive_fault,
    archives_must_have_the_size_and_the_digest, bad_id_message, is_addon_id,
    is_small_letters_digits_and_hyphens, noted_version, resolved_url, sha256, validate_addon_id,
    verify_archive, InstalledVersion, LauncherAddon, LauncherConfig, RegistryVersion, UpdateResult,
};

verus! {

/// How far the update has come. The addon at hand is the first one that has no
/// result yet.
pub struct Progress {
    pub registry_url: String,
    pub addons: Vec<LauncherAddon>,
    pub results: Vec<UpdateResult>,
}

/// The value of a [`Progress`].
#[verifier::ext_equal]
pub struct ProgressView {
    pub registry_url: Seq<char>,
    pub addons: Seq<LauncherAddon>,
    pub results: Seq<UpdateResult>,
}

impl View for Progress {
    type V = ProgressView;

    open spec fn view(&self) -> ProgressView {
        ProgressView {
            registry_url: self.registry_url@,
            addons: self.addons@,
            results: self.results@,
        }
    }
}

impl ProgressView {
    /// The addon at hand.
    pub open spec fn addon(self) -> LauncherAddon {
        self.addons[self.results.len() as int]
    }

    /// Whether there is an addon at hand, and it has an id that it may have.
    pub open spec fn at_addon(self) -> bool {
        &&& self.results.len() < self.addons.len()
        &&& is_addon_id(self.addon().id@)
    }

    /// With the addon at hand done.
    pub open spec fn with_result(self, release: RegistryVersion, updated: bool) -> ProgressView {
        ProgressView {
            results: self.results.push(
                UpdateResult {
                    addon_id: self.addon().id,
                    version: release.version,
                    required: self.addon().required,
                    updated,
                },
            ),
            ..self
        }
    }
}

/// Create the directory that the addons are installed in.
pub struct RootRequest {
    pub progress: Progress,
}

/// Ask the registry for the latest version of the addon at hand.
pub struct ReleaseRequest {
    pub progress: Progress,
}

/// Find out which version of the addon at hand is installed.
pub struct InstalledRequest {
    pub progress: Progress,
    pub release: RegistryVersion,
}

/// Download the archive of the addon at hand.
pub struct DownloadRequest {
    pub progress: Progress,
    pub release: RegistryVersion,
}

/// Install the archive of the addon at hand.
pub struct InstallRequest {
    pub progress: Progress,
    pub release: RegistryVersion,
    pub archive: Vec<u8>,
}

/// The step at hand.
pub enum UpdateStep {
    CreateRoot(RootRequest),
    FetchRelease(ReleaseRequest),
    ReadInstalled(InstalledRequest),
    Download(DownloadRequest),
    Install(InstallRequest),
    Finished(Vec<UpdateResult>),
    Failed(String),
}

/// The value of an [`UpdateStep`].
pub enum UpdateStepView {
    CreateRoot(ProgressView),
    FetchRelease(ProgressView),
    ReadInstalled(ProgressView, RegistryVersion),
    Download(ProgressView, RegistryVersion),
    Install(ProgressView, RegistryVersion, Seq<u8>),
    Finished(Seq<UpdateResult>),
    Failed(Seq<char>),
}

impl View for UpdateStep {
    type V = UpdateStepView;

    open spec fn view(&self) -> UpdateStepView {
        match *self {
            UpdateStep::CreateRoot(request) => UpdateStepView::CreateRoot(request.progress@),
            UpdateStep::FetchRelease(request) => UpdateStepView::FetchRelease(request.progress@),
            UpdateStep::ReadInstalled(request) => UpdateStepView::ReadInstalled(
                request.progress@,
                request.release,
            ),
            UpdateStep::Download(request) => UpdateStepView::Download(
                request.progress@,
                request.release,
            ),
            UpdateStep::Install(request) => UpdateStepView::Install(
                request.progress@,
                request.release,
                request.archive@,
            ),
            UpdateStep::Finished(results) => UpdateStepView::Finished(results@),
            UpdateStep::Failed(message) => UpdateStepView::Failed(message@),
        }
    }
}

/// The outcome of a step.
pub enum UpdateEvent {
    RootCreated(Result<(), Seq<char>>),
    ReleaseFetched(Result<RegistryVersion, HttpFailure>),
    InstalledRead(Option<InstalledVersion>),
    Downloaded(Result<Seq<u8>, HttpFailure>),
    Installed(Result<(), Seq<char>>),
}

/// The step that begins an update, once the configuration has been asked for.
pub open spec fn first_step(fetched: Result<LauncherConfig, HttpFailure>) -> UpdateStepView {
    match fetched {
        Ok(config) => UpdateStepView::CreateRoot(
            ProgressView {
                registry_url: config.registry_url@,
                addons: config.addons@,
                results: Seq::empty(),
            },
        ),
        Err(failure) => UpdateStepView::Failed(
            worded(
                failure,
                "ランチャー構成を取得できませんでした: "@,
                "ランチャー構成APIがエラーを返しました: "@,
                "ランチャー構成を解析できませんでした: "@,
            ),
        ),
    }
}

/// The step that takes up the addon at hand, or ends the update.
pub open spec fn next_addon(progress: ProgressView) -> UpdateStepView {
    if progress.results.len() >= progress.addons.len() {
        UpdateStepView::Finished(progress.results)
    } else if is_addon_id(progress.addon().id@) {
        UpdateStepView::FetchRelease(progress)
    } else {
        UpdateStepView::Failed(bad_id_message(progress.addon().id@))
    }
}

/// Whether the version that is installed is the one that `release` offers.
pub open spec fn is_current(installed: Option<InstalledVersion>, release: RegistryVersion) -> bool {
    match installed {
        Some(installed) => installed.version@ == release.version@ && installed.sha256@
            == release.sha256@,
        None => false,
    }
}

/// The step that follows from an outcome. An outcome of another step changes
/// nothing.
pub open spec fn after(step: UpdateStepView, event: UpdateEvent) -> UpdateStepView {
    match (step, event) {
        (UpdateStepView::CreateRoot(progress), UpdateEvent::RootCreated(created)) => match created {
            Ok(()) => next_addon(progress),
            Err(detail) => UpdateStepView::Failed(detail),
        },
        (
            UpdateStepView::FetchRelease(progress),
            UpdateEvent::ReleaseFetched(fetched),
        ) => match fetched {
            Ok(release) => UpdateStepView::ReadInstalled(progress, release),
            Err(failure) => UpdateStepView::Failed(
                progress.addon().id@ + worded(
                    failure,
                    "の更新情報を取得できませんでした: "@,
                    "の更新情報APIがエラーを返しました: "@,
                    "の更新情報を解析できませんでした: "@,
                ),
            ),
        },
        (
            UpdateStepView::ReadInstalled(progress, release),
            UpdateEvent::InstalledRead(installed),
        ) => if is_current(installed, release) {
            next_addon(progress.with_result(release, false))
        } else {
            UpdateStepView::Download(progress, release)
        },
        (
            UpdateStepView::Download(progress, release),
            UpdateEvent::Downloaded(downloaded),
        ) => match downloaded {
            Ok(archive) => match archive_fault(archive.len(), sha256(archive), release) {
                Some(fault) => UpdateStepView::Failed(fault),
                None => UpdateStepView::Install(progress, release, archive),
            },
            Err(failure) => UpdateStepView::Failed(
                progress.addon().id@ + worded(
                    failure,
                    "をダウンロードできませんでした: "@,
                    "のダウンロードが拒否されました: "@,
                    "を読み込めませんでした: "@,
                ),
            ),
        },
        (
            UpdateStepView::Install(progress, release, archive),
            UpdateEvent::Installed(installed),
        ) => match installed {
            Ok(()) => next_addon(progress.with_result(release, true)),
            Err(detail) => UpdateStepView::Failed(
                progress.addon().id@ + "をインストールできませんでした: "@ + detail,
            ),
        },
        _ => step,
    }
}

/// The value of a download.
pub open spec fn download(downloaded: Result<Vec<u8>, HttpFailure>) -> Result<
    Seq<u8>,
    HttpFailure,
> {
    match downloaded {
        Ok(bytes) => Ok(bytes@),
        Err(failure) => Err(failure),
    }
}

/// Begins an update with the configuration, if it could be fetched.
pub fn begin_update(fetched: Result<LauncherConfig, HttpFailure>) -> (step: UpdateStep)
    ensures
        step@ == first_step(fetched),
{
    match fetched {
        Ok(config) => {
            let progress = Progress {
                registry_url: config.registry_url,
                addons: config.addons,
                results: Vec::new(),
            };
            UpdateStep::CreateRoot(RootRequest { progress })
        },
        Err(failure) => UpdateStep::Failed(
            failure.message(
                "ランチャー構成を取得できませんでした: ",
                "ランチャー構成APIがエラーを返しました: ",
                "ランチャー構成を解析できませんでした: ",
            ),
        ),
    }
}

/// Takes up the addon at hand, or ends the update.
fn take_up(progress: Progress) -> (step: UpdateStep)
    ensures
        step@ == next_addon(progress@),
{
    if progress.results.len() >= progress.addons.len() {
        return UpdateStep::Finished(progress.results);
    }
    let checked: Result<(), String> = validate_addon_id(
        progress.addons[progress.results.len()].id.as_str(),
    );
    match checked {
        Ok(()) => UpdateStep::FetchRelease(ReleaseRequest { progress }),
        Err(message) => UpdateStep::Failed(message),
    }
}

impl Progress {
    /// Whether there is an addon at hand, and it has an id that it may have.
    pub fn has_addon(&self) -> (yes: bool)
        ensures
            yes == self@.at_addon(),
    {
        self.results.len() < self.addons.len() && validate_addon_id(
            self.addons[self.results.len()].id.as_str(),
        ).is_ok()
    }

    /// The id of the addon at hand.
    pub fn addon_id(&self) -> (id: &str)
        requires
            self@.at_addon(),
        ensures
            id@ == self@.addon().id@,
    {
        self.addons[self.results.len()].id.as_str()
    }

    /// Notes what became of the addon at hand.
    fn note(&mut self, release: RegistryVersion, updated: bool)
        requires
            old(self)@.at_addon(),
        ensures
            final(self)@ == old(self)@.with_result(release, updated),
    {
        let addon: &LauncherAddon = &self.addons[self.results.len()];
        let result = UpdateResult {
            addon_id: addon.id.clone(),
            version: release.version,
            required: addon.required,
            updated,
        };
        self.results.push(result);
    }
}

impl RootRequest {
    /// What follows once the directory was created, or could not be.
    pub fn resume(self, created: Result<(), String>) -> (step: UpdateStep)
        ensures
            step@ == after(
                UpdateStepView::CreateRoot(self.progress@),
                UpdateEvent::RootCreated(outcome(created)),
            ),
    {
        match created {
            Ok(()) => take_up(self.progress),
            Err(detail) => UpdateStep::Failed(detail),
        }
    }
}

impl ReleaseRequest {
    /// The address to ask.
    pub fn url(&self) -> (url: String)
        requires
            self.progress@.at_addon(),
        ensures
            url@ == resolved_url(
                self.progress@.registry_url,
                self.progress@.addon().latest_version_url@,
            ),
    {
        let addon: &LauncherAddon = &self.progress.addons[self.progress.results.len()];
        absolute_url(self.progress.registry_url.as_str(), addon.latest_version_url.as_str())
    }

    /// What follows from the answer.
    pub fn resume(self, fetched: Result<RegistryVersion, HttpFailure>) -> (step: UpdateStep)
        requires
            self.progress@.at_addon(),
        ensures
            step@ == after(
                UpdateStepView::FetchRelease(self.progress@),
                UpdateEvent::ReleaseFetched(fetched),
            ),
    {
        match fetched {
            Ok(release) => UpdateStep::ReadInstalled(
                InstalledRequest { progress: self.progress, release },
            ),
            Err(failure) => {
                let message: String = failure.message(
                    "の更新情報を取得できませんでした: ",
                    "の更新情報APIがエラーを返しました: ",
                    "の更新情報を解析できませんでした: ",
                );
                UpdateStep::Failed(join(self.progress.addon_id(), message.as_str()))
            },
        }
    }
}

impl InstalledRequest {
    /// What follows from the version that is installed, if one is.
    pub fn resume(self, installed: Option<InstalledVersion>) -> (step: UpdateStep)
        requires
            self.progress@.at_addon(),
        ensures
            step@ == after(
                UpdateStepView::ReadInstalled(self.progress@, self.release),
                UpdateEvent::InstalledRead(installed),
            ),
    {
        let current: bool = match &installed {
            Some(installed) => same_text(
                installed.version.as_str(),
                self.release.version.as_str(),
            ) && same_text(installed.sha256.as_str(), self.release.sha256.as_str()),
            None => false,
        };
        let mut progress: Progress = self.progress;
        if current {
            progress.note(self.release, false);
            take_up(progress)
        } else {
            UpdateStep::Download(DownloadRequest { progress, release: self.release })
        }
    }
}

impl DownloadRequest {
    /// The address to download from.
    pub fn url(&self) -> (url: String)
        ensures
            url@ == resolved_url(self.progress@.registry_url, self.release.download_url@),
    {
        absolute_url(self.progress.registry_url.as_str(), self.release.download_url.as_str())
    }

    /// What follows from the archive. One that is not what the registry offers goes
    /// no further.
    pub fn resume(self, downloaded: Result<Vec<u8>, HttpFailure>) -> (step: UpdateStep)
        requires
            self.progress@.at_addon(),
        ensures
            step@ == after(
                UpdateStepView::Download(self.progress@, self.release),
                UpdateEvent::Downloaded(download(downloaded)),
            ),
    {
        match downloaded {
            Ok(archive) => {
                let verified: Result<(), String> = verify_archive(
                    archive.as_slice(),
                    &self.release,
                );
                match verified {
                    Ok(()) => UpdateStep::Install(
                        InstallRequest { progress: self.progress, release: self.release, archive },
                    ),
                    Err(message) => UpdateStep::Failed(message),
                }
            },
            Err(failure) => {
                let message: String = failure.message(
                    "をダウンロードできませんでした: ",
                    "のダウンロードが拒否されました: ",
                    "を読み込めませんでした: ",
                );
                UpdateStep::Failed(join(self.progress.addon_id(), message.as_str()))
            },
        }
    }
}

impl InstallRequest {
    /// What follows once the archive was installed, or could not be.
    pub fn resume(self, installed: Result<(), String>) -> (step: UpdateStep)
        requires
            self.progress@.at_addon(),
        ensures
            step@ == after(
                UpdateStepView::Install(self.progress@, self.release, self.archive@),
                UpdateEvent::Installed(outcome(installed)),
            ),
    {
        let mut progress: Progress = self.progress;
        match installed {
            Ok(()) => {
                progress.note(self.release, true);
                take_up(progress)
            },
            Err(detail) => {
                let mut message: String = join(
                    progress.addon_id(),
                    "をインストールできませんでした: ",
                );
                message.append(detail.as_str());
                UpdateStep::Failed(message)
            },
        }
    }
}

/// Whether `results` are those of the first addons in `addons`: one for each, in
/// order, under its id and with its `required` mark, and every id is one that an
/// addon may have.
pub open spec fn results_of(addons: Seq<LauncherAddon>, results: Seq<UpdateResult>) -> bool {
    &&& results.len() <= addons.len()
    &&& forall|i: int|
        0 <= i < results.len() ==> {
            &&& (#[trigger] results[i]).addon_id == addons[i].id
            &&& results[i].required == addons[i].required
            &&& is_addon_id(addons[i].id@)
        }
}

/// What holds of every step of an update of `addons`.
pub open spec fn step_holds(addons: Seq<LauncherAddon>, step: UpdateStepView) -> bool {
    match step {
        UpdateStepView::CreateRoot(progress) => progress.addons == addons && progress.results.len()
            == 0,
        UpdateStepView::FetchRelease(progress) => progress.addons == addons && results_of(
            addons,
            progress.results,
        ) && progress.at_addon(),
        UpdateStepView::ReadInstalled(progress, _) => progress.addons == addons && results_of(
            addons,
            progress.results,
        ) && progress.at_addon(),
        UpdateStepView::Download(progress, _) => progress.addons == addons && results_of(
            addons,
            progress.results,
        ) && progress.at_addon(),
        UpdateStepView::Install(progress, release, archive) => progress.addons == addons
            && results_of(addons, progress.results) && progress.at_addon() && archive_fault(
            archive.len(),
            sha256(archive),
            release,
        ) is None,
        UpdateStepView::Finished(results) => results_of(addons, results) && results.len()
            == addons.len(),
        UpdateStepView::Failed(_) => true,
    }
}

/// The step that a sequence of outcomes leads to.
pub open spec fn after_all(step: UpdateStepView, events: Seq<UpdateEvent>) -> UpdateStepView
    decreases events.len(),
{
    if events.len() == 0 {
        step
    } else {
        after(after_all(step, events.drop_last()), events.last())
    }
}

proof fn lemma_next_addon(addons: Seq<LauncherAddon>, progress: ProgressView)
    requires
        progress.addons == addons,
        results_of(addons, progress.results),
    ensures
        step_holds(addons, next_addon(progress)),
{
}

proof fn lemma_after(addons: Seq<LauncherAddon>, step: UpdateStepView, event: UpdateEvent)
    requires
        step_holds(addons, step),
    ensures
        step_holds(addons, after(step, event)),
{
    match (step, event) {
        (UpdateStepView::CreateRoot(progress), UpdateEvent::RootCreated(_)) => {
            lemma_next_addon(addons, progress);
        },
        (UpdateStepView::ReadInstalled(progress, release), UpdateEvent::InstalledRead(_)) => {
            lemma_with_result(addons, progress, release, false);
        },
        (UpdateStepView::Install(progress, release, _), UpdateEvent::Installed(_)) => {
            lemma_with_result(addons, progress, release, true);
        },
        _ => {},
    }
}

proof fn lemma_with_result(
    addons: Seq<LauncherAddon>,
    progress: ProgressView,
    release: RegistryVersion,
    updated: bool,
)
    requires
        progress.addons == addons,
        results_of(addons, progress.results),
        progress.at_addon(),
    ensures
        step_holds(addons, next_addon(progress.with_result(release, updated))),
{
    let next = progress.with_result(release, updated);
    assert forall|i: int| 0 <= i < next.results.len() implies {
        &&& (#[trigger] next.results[i]).addon_id == addons[i].id
        &&& next.results[i].required == addons[i].required
        &&& is_addon_id(addons[i].id@)
    } by {
        if i < progress.results.len() {
            assert(next.results[i] == progress.results[i]);
        }
    }
    lemma_next_addon(addons, next);
}

/// Whatever the outcomes are: nothing is asked for an addon whose id is not one
/// that it may have, only archives with the size and the digest that the registry
/// gives come to be installed, and an update that finishes has one result for each
/// addon, in their order.
pub proof fn every_step_holds(config: LauncherConfig, events: Seq<UpdateEvent>)
    ensures
        step_holds(config.addons@, after_all(first_step(Ok(config)), events)),
    decreases events.len(),
{
    if events.len() > 0 {
        every_step_holds(config, events.drop_last());
        lemma_after(
            config.addons@,
            after_all(first_step(Ok(config)), events.drop_last()),
            events.last(),
        );
    }
}

/// An addon whose installed version is the one on offer is not downloaded.
pub proof fn current_addons_are_not_downloaded(
    progress: ProgressView,
    release: RegistryVersion,
    installed: InstalledVersion,
)
    requires
        installed.version@ == release.version@,
        installed.sha256@ == release.sha256@,
    ensures
        after(
            UpdateStepView::ReadInstalled(progress, release),
            UpdateEvent::InstalledRead(Some(installed)),
        ) == next_addon(progress.with_result(release, false)),
{
}

/// An addon that was installed is current: with what was noted in it then, the same
/// version is not downloaded again.
pub proof fn installed_addons_are_current(progress: ProgressView, release: RegistryVersion)
    ensures
        after(
            UpdateStepView::ReadInstalled(progress, release),
            UpdateEvent::InstalledRead(Some(noted_version(release))),
        ) == next_addon(progress.with_result(release, false)),
{
}

/// Whether `event` is an outcome of `step`.
pub open spec fn is_outcome_of(event: UpdateEvent, step: UpdateStepView) -> bool {
    match step {
        UpdateStepView::CreateRoot(_) => event is RootCreated,
        UpdateStepView::FetchRelease(_) => event is ReleaseFetched,
        UpdateStepView::ReadInstalled(_, _) => event is InstalledRead,
        UpdateStepView::Download(_, _) => event is Downloaded,
        UpdateStepView::Install(_, _, _) => event is Installed,
        UpdateStepView::Finished(_) => false,
        UpdateStepView::Failed(_) => false,
    }
}

/// How many steps an update can have left, at most.
pub open spec fn steps_left(step: UpdateStepView) -> int {
    match step {
        UpdateStepView::CreateRoot(progress) => 4 * (progress.addons.len() as int) + 1,
        UpdateStepView::FetchRelease(progress) => 4 * (progress.addons.len()
            - progress.results.len()),
        UpdateStepView::ReadInstalled(progress, _) => 4 * (progress.addons.len()
            - progress.results.len()) - 1,
        UpdateStepView::Download(progress, _) => 4 * (progress.addons.len()
            - progress.results.len()) - 2,
        UpdateStepView::Install(progress, _, _) => 4 * (progress.addons.len()
            - progress.results.len()) - 3,
        UpdateStepView::Finished(_) => 0,
        UpdateStepView::Failed(_) => 0,
    }
}

/// An update ends, whatever the outcomes: each of them leaves fewer steps to come, and
/// with none left the update has finished or failed.
pub proof fn updates_end(addons: Seq<LauncherAddon>, step: UpdateStepView, event: UpdateEvent)
    requires
        step_holds(addons, step),
    ensures
        steps_left(step) >= 0,
        steps_left(step) == 0 <==> (step is Finished || step is Failed),
        is_outcome_of(event, step) ==> steps_left(after(step, event)) < steps_left(step),
{
}

/// Whether `event` tells of the addon at hand that `releases` holds the version on offer
/// for it, and `installed` the version that is installed of it.
pub open spec fn tells(
    step: UpdateStepView,
    event: UpdateEvent,
    releases: Seq<RegistryVersion>,
    installed: Seq<Option<InstalledVersion>>,
) -> bool {
    match (step, event) {
        (UpdateStepView::FetchRelease(progress), UpdateEvent::ReleaseFetched(Ok(release))) =>
        release == releases[progress.results.len() as int],
        (UpdateStepView::ReadInstalled(progress, _), UpdateEvent::InstalledRead(found)) => found
            == installed[progress.results.len() as int],
        _ => true,
    }
}

/// Whether each event tells of the step before it, as [`tells`] says.
pub open spec fn all_tell(
    step: UpdateStepView,
    events: Seq<UpdateEvent>,
    releases: Seq<RegistryVersion>,
    installed: Seq<Option<InstalledVersion>>,
) -> bool
    decreases events.len(),
{
    events.len() > 0 ==> {
        &&& all_tell(step, events.drop_last(), releases, installed)
        &&& tells(after_all(step, events.drop_last()), events.last(), releases, installed)
    }
}

/// Whether each result gives the version on offer for its addon, and says that it was
/// updated exactly if what was installed was not that version.
pub open spec fn results_follow(
    results: Seq<UpdateResult>,
    releases: Seq<RegistryVersion>,
    installed: Seq<Option<InstalledVersion>>,
) -> bool {
    forall|i: int|
        0 <= i < results.len() ==> {
            &&& (#[trigger] results[i]).version == releases[i].version
            &&& results[i].updated == !is_current(installed[i], releases[i])
        }
}

/// Whether the step follows what is on offer and what is installed: its results do, the
/// version that it deals with is the one on offer, and it downloads or installs only what
/// is not current.
pub open spec fn step_follows(
    step: UpdateStepView,
    releases: Seq<RegistryVersion>,
    installed: Seq<Option<InstalledVersion>>,
) -> bool {
    match step {
        UpdateStepView::CreateRoot(progress) => results_follow(
            progress.results,
            releases,
            installed,
        ),
        UpdateStepView::FetchRelease(progress) => results_follow(
            progress.results,
            releases,
            installed,
        ),
        UpdateStepView::ReadInstalled(progress, release) => {
            &&& results_follow(progress.results, releases, installed)
            &&& release == releases[progress.results.len() as int]
        },
        UpdateStepView::Download(progress, release) => {
            &&& results_follow(progress.results, releases, installed)
            &&& release == releases[progress.results.len() as int]
            &&& !is_current(installed[progress.results.len() as int], release)
        },
        UpdateStepView::Install(progress, release, _) => {
            &&& results_follow(progress.results, releases, installed)
            &&& release == releases[progress.results.len() as int]
            &&& !is_current(installed[progress.results.len() as int], release)
        },
        UpdateStepView::Finished(results) => results_follow(results, releases, installed),
        UpdateStepView::Failed(_) => true,
    }
}

proof fn lemma_result_follows(
    progress: ProgressView,
    release: RegistryVersion,
    updated: bool,
    releases: Seq<RegistryVersion>,
    installed: Seq<Option<InstalledVersion>>,
)
    requires
        results_follow(progress.results, releases, installed),
        release == releases[progress.results.len() as int],
        updated == !is_current(installed[progress.results.len() as int], release),
    ensures
        step_follows(next_addon(progress.with_result(release, updated)), releases, installed),
{
    let next = progress.with_result(release, updated);
    assert forall|i: int| 0 <= i < next.results.len() implies {
        &&& (#[trigger] next.results[i]).version == releases[i].version
        &&& next.results[i].updated == !is_current(installed[i], releases[i])
    } by {
        if i < progress.results.len() {
            assert(next.results[i] == progress.results[i]);
        }
    }
}

/// Where `releases` are the versions on offer and `installed` those that are installed,
/// an update downloads and installs only what is not current, and gives for each addon
/// the version on offer and whether it was updated.
pub proof fn updates_follow_the_registry(
    config: LauncherConfig,
    events: Seq<UpdateEvent>,
    releases: Seq<RegistryVersion>,
    installed: Seq<Option<InstalledVersion>>,
)
    requires
        all_tell(first_step(Ok(config)), events, releases, installed),
    ensures
        step_follows(after_all(first_step(Ok(config)), events), releases, installed),
    decreases events.len(),
{
    if events.len() > 0 {
        updates_follow_the_registry(config, events.drop_last(), releases, installed);
        let before = after_all(first_step(Ok(config)), events.drop_last());
        match (before, events.last()) {
            (UpdateStepView::ReadInstalled(progress, release), UpdateEvent::InstalledRead(found)) => {
                if is_current(found, release) {
                    lemma_result_follows(progress, release, false, releases, installed);
                }
            },
            (UpdateStepView::Install(progress, release, _), UpdateEvent::Installed(_)) => {
                lemma_result_follows(progress, release, true, releases, installed);
            },
            _ => {},
        }
    }
}

/// Whether every addon of `count` is installed in the version on offer.
pub open spec fn all_current(
    count: nat,
    releases: Seq<RegistryVersion>,
    installed: Seq<Option<InstalledVersion>>,
) -> bool {
    forall|i: int| 0 <= i < count ==> is_current(#[trigger] installed[i], releases[i])
}

/// Whether the step leaves all addons alone: it neither downloads nor installs, and has
/// updated none.
pub open spec fn leaves_alone(step: UpdateStepView) -> bool {
    &&& step !is Download
    &&& step !is Install
    &&& step matches UpdateStepView::Finished(results) ==> forall|i: int|
        0 <= i < results.len() ==> !(#[trigger] results[i]).updated
}

/// A second update changes nothing: where every addon is installed in the version on
/// offer, none is downloaded, none is installed, and none is said to be updated.
pub proof fn second_updates_change_nothing(
    config: LauncherConfig,
    events: Seq<UpdateEvent>,
    releases: Seq<RegistryVersion>,
    installed: Seq<Option<InstalledVersion>>,
)
    requires
        all_tell(first_step(Ok(config)), events, releases, installed),
        all_current(config.addons@.len(), releases, installed),
    ensures
        leaves_alone(after_all(first_step(Ok(config)), events)),
{
    updates_follow_the_registry(config, events, releases, installed);
    every_step_holds(config, events);
    match after_all(first_step(Ok(config)), events) {
        UpdateStepView::Download(progress, _) => {
            assert(is_current(
                installed[progress.results.len() as int],
                releases[progress.results.len() as int],
            ));
        },
        UpdateStepView::Install(progress, _, _) => {
            assert(is_current(
                installed[progress.results.len() as int],
                releases[progress.results.len() as int],
            ));
        },
        UpdateStepView::Finished(results) => {
            assert forall|i: int| 0 <= i < results.len() implies !(
            #[trigger] results[i]).updated by {
                assert(is_current(installed[i], releases[i]));
            }
        },
        _ => {},
    }
}

/// An addon of which another version is installed, or none, is downloaded: its version or
/// its digest is not the one on offer, letter for letter. One that agrees in both is not.
pub proof fn addons_are_downloaded_exactly_if_they_differ(
    progress: ProgressView,
    release: RegistryVersion,
    installed: Option<InstalledVersion>,
)
    ensures
        ({
            let step = after(
                UpdateStepView::ReadInstalled(progress, release),
                UpdateEvent::InstalledRead(installed),
            );
            &&& installed is None || installed->0.version@ != release.version@
                || installed->0.sha256@ != release.sha256@ ==> step
                == UpdateStepView::Download(progress, release)
            &&& installed is Some && installed->0.version@ == release.version@
                && installed->0.sha256@ == release.sha256@ ==> step !is Download
        }),
{
}

/// Whether the addon at hand, if there is one, has an id that no addon may have.
pub open spec fn has_bad_id(addons: Seq<LauncherAddon>, index: nat) -> bool {
    index < addons.len() && !is_small_letters_digits_and_hyphens(addons[index as int].id@)
}

/// Whether something is wrong with what came of a step: it failed, the archive has not
/// the size or the digest that the registry gives, or the addon that comes next has an id
/// that no addon may have.
pub open spec fn is_trouble(step: UpdateStepView, event: UpdateEvent) -> bool {
    match (step, event) {
        (UpdateStepView::CreateRoot(progress), UpdateEvent::RootCreated(created)) => created is Err
            || has_bad_id(progress.addons, progress.results.len()),
        (UpdateStepView::FetchRelease(_), UpdateEvent::ReleaseFetched(fetched)) => fetched is Err,
        (
            UpdateStepView::ReadInstalled(progress, release),
            UpdateEvent::InstalledRead(Some(installed)),
        ) => installed.version@ == release.version@ && installed.sha256@ == release.sha256@
            && has_bad_id(progress.addons, progress.results.len() + 1),
        (UpdateStepView::Download(_, release), UpdateEvent::Downloaded(downloaded)) => {
            ||| downloaded is Err
            ||| downloaded->Ok_0.len() != release.file_size
            ||| !writes_in_hex(release.sha256@, sha256(downloaded->Ok_0))
        },
        (
            UpdateStepView::Install(progress, _, _),
            UpdateEvent::Installed(installed),
        ) => installed is Err || has_bad_id(progress.addons, progress.results.len() + 1),
        _ => false,
    }
}

/// An update fails exactly where there is trouble.
pub proof fn updates_fail_exactly_where_there_is_trouble(step: UpdateStepView, event: UpdateEvent)
    requires
        step !is Failed,
    ensures
        after(step, event) is Failed <==> is_trouble(step, event),
{
    match step {
        UpdateStepView::CreateRoot(progress) => {
            addon_ids_are_small_letters_digits_and_hyphens(progress.addon().id@);
        },
        UpdateStepView::ReadInstalled(progress, release) => {
            let next = progress.with_result(release, false);
            addon_ids_are_small_letters_digits_and_hyphens(next.addon().id@);
        },
        UpdateStepView::Download(progress, release) => {
            if let UpdateEvent::Downloaded(Ok(archive)) = event {
                archives_must_have_the_size_and_the_digest(
                    archive.len(),
                    sha256(archive),
                    release,
                );
            }
        },
        UpdateStepView::Install(progress, release, _) => {
            let next = progress.with_result(release, true);
            addon_ids_are_small_letters_digits_and_hyphens(next.addon().id@);
        },
        _ => {},
    }
}

/// Whether each event is an outcome of the step before it, and none of them is trouble.
pub open spec fn goes_well(step: UpdateStepView, events: Seq<UpdateEvent>) -> bool
    decreases events.len(),
{
    events.len() > 0 ==> {
        let before = after_all(step, events.drop_last());
        &&& goes_well(step, events.drop_last())
        &&& before is Finished || is_outcome_of(events.last(), before)
        &&& !is_trouble(before, events.last())
    }
}

/// An update in which there is no trouble finishes, with a result for every addon, after
/// at most four steps for each and one more.
pub proof fn updates_without_trouble_finish(config: LauncherConfig, events: Seq<UpdateEvent>)
    requires
        goes_well(first_step(Ok(config)), events),
    ensures
        ({
            let step = after_all(first_step(Ok(config)), events);
            &&& step !is Failed
            &&& step is Finished || steps_left(step) + events.len() <= 4 * config.addons@.len() + 1
            &&& events.len() > 4 * config.addons@.len() ==> (step matches UpdateStepView::Finished(
                results,
            ) && results.len() == config.addons@.len())
        }),
    decreases events.len(),
{
    every_step_holds(config, events);
    let step = after_all(first_step(Ok(config)), events);
    if events.len() > 0 {
        let front = events.drop_last();
        let before = after_all(first_step(Ok(config)), front);
        updates_without_trouble_finish(config, front);
        every_step_holds(config, front);
        updates_fail_exactly_where_there_is_trouble(before, events.last());
        updates_end(config.addons@, before, events.last());
        updates_end(config.addons@, step, events.last());
    }
}

/// What is said of trouble: what failed, for which addon, and all that is known of why.
pub proof fn trouble_is_told_in_full(
    progress: ProgressView,
    release: RegistryVersion,
    archive: Seq<u8>,
    failure: HttpFailure,
    detail: Seq<char>,
)
    ensures
        ({
            let id = progress.addon().id@;
            let why = failure.detail@;
            &&& first_step(Err(failure)) == UpdateStepView::Failed(
                match failure.stage {
                    HttpStage::Send => "ランチャー構成を取得できませんでした: "@ + why,
                    HttpStage::Status => "ランチャー構成APIがエラーを返しました: "@ + why,
                    HttpStage::Body => "ランチャー構成を解析できませんでした: "@ + why,
                },
            )
            &&& after(
                UpdateStepView::CreateRoot(progress),
                UpdateEvent::RootCreated(Err(detail)),
            ) == UpdateStepView::Failed(detail)
            &&& has_bad_id(progress.addons, progress.results.len()) ==> after(
                UpdateStepView::CreateRoot(progress),
                UpdateEvent::RootCreated(Ok(())),
            ) == UpdateStepView::Failed("不正なアドオンIDです: "@ + id)
            &&& after(
                UpdateStepView::FetchRelease(progress),
                UpdateEvent::ReleaseFetched(Err(failure)),
            ) == UpdateStepView::Failed(
                id + match failure.stage {
                    HttpStage::Send => "の更新情報を取得できませんでした: "@ + why,
                    HttpStage::Status => "の更新情報APIがエラーを返しました: "@ + why,
                    HttpStage::Body => "の更新情報を解析できませんでした: "@ + why,
                },
            )
            &&& after(
                UpdateStepView::Download(progress, release),
                UpdateEvent::Downloaded(Err(failure)),
            ) == UpdateStepView::Failed(
                id + match failure.stage {
                    HttpStage::Send => "をダウンロードできませんでした: "@ + why,
                    HttpStage::Status => "のダウンロードが拒否されました: "@ + why,
                    HttpStage::Body => "を読み込めませんでした: "@ + why,
                },
            )
            &&& after(
                UpdateStepView::Install(progress, release, archive),
                UpdateEvent::Installed(Err(detail)),
            ) == UpdateStepView::Failed(id + "をインストールできませんでした: "@ + detail)
        }),
{
    addon_ids_are_small_letters_digits_and_hyphens(progress.addon().id@);
}

/// An archive that is not the one on offer is refused for its size, or else for its
/// digest, and one that is comes to be installed as it is.
pub proof fn only_the_archive_on_offer_is_installed(
    progress: ProgressView,
    release: RegistryVersion,
    archive: Seq<u8>,
)
    ensures
        ({
            let step = after(
                UpdateStepView::Download(progress, release),
                UpdateEvent::Downloaded(Ok(archive)),
            );
            if archive.len() != release.file_size {
                step == UpdateStepView::Failed(
                    "ファイルサイズが一致しません (expected "@ + decimal(release.file_size as nat)
                        + ", got "@ + decimal(archive.len()) + ")"@,
                )
            } else if !writes_in_hex(release.sha256@, sha256(archive)) {
                step == UpdateStepView::Failed("SHA-256が一致しません"@)
            } else {
                step == UpdateStepView::Install(progress, release, archive)
            }
        }),
{
    archives_must_have_the_size_and_the_digest(archive.len(), sha256(archive), release);
}

/// An update begins with the directory of the addons, for all addons of the configuration
/// in their order.
pub proof fn updates_begin_with_the_directory(config: LauncherConfig)
    ensures
        first_step(Ok(config)) matches UpdateStepView::CreateRoot(progress)
            && progress.registry_url == config.registry_url@ && progress.addons == config.addons@
            && progress.results.len() == 0,
{
}

} // verus!
