//! Preparing the dedicated server.

use vstd::prelude::*;

use crate::failure::{outcome, worded, HttpFailure, HttpStage};
use crate::properties::WORLD_NAME;
use crate::text::{chars_of, ends_with, join, same_text, starts_with, text_of};
use crate::update::download;

verus! {

/// Where the downloads on offer are listed.
pub const DOWNLOAD_LINKS_URL: &'static str = "https://net-secondary.web.minecraft-services.net/api/v1.0/download/links";

/// How long an answer may take, in seconds.
pub const PREPARE_TIMEOUT_SECONDS: u64 = 300;

/// The file of a server that says where it was downloaded.
pub const ORIGIN_FILE: &'static str = ".werewolf-bds.json";

/// The program of a server.
pub const EXECUTABLE: &'static str = "bedrock_server.exe";

/// A download on offer.
pub struct DownloadLink {
    pub download_type: String,
    pub download_url: String,
}

/// The server that is installed.
pub struct InstalledBds {
    pub download_url: String,
}

/// The server, prepared.
#[derive(Debug)]
pub struct BdsStatus {
    pub version: String,
    pub updated: bool,
    pub world_name: String,
    pub behavior_packs: usize,
    pub resource_packs: usize,
}

/// What follows the last slash of `url`.
pub open spec fn last_segment(url: Seq<char>) -> Seq<char>
    decreases url.len(),
{
    if url.len() == 0 || url.last() == '/' {
        Seq::empty()
    } else {
        last_segment(url.drop_last()).push(url.last())
    }
}

/// The version in the name of the archive that `url` points to.
pub open spec fn version_of(url: Seq<char>) -> Seq<char> {
    let name = last_segment(url);
    let rest = name.skip("bedrock-server-"@.len() as int);
    if "bedrock-server-"@.is_prefix_of(name) && ".zip"@.is_suffix_of(rest) {
        rest.take(rest.len() - ".zip"@.len())
    } else {
        "unknown"@
    }
}

/// The version in the name of the archive that `url` points to, or `unknown`.
pub fn version_from_url(url: &str) -> (version: String)
    ensures
        version@ == version_of(url@),
{
    proof {
        reveal_strlit("bedrock-server-");
        reveal_strlit(".zip");
    }
    let chars: Vec<char> = chars_of(url);
    let mut start: usize = chars.len();
    assert(chars@.take(start as int) =~= chars@);
    assert(last_segment(chars@) + chars@.skip(start as int) =~= last_segment(chars@));
    while start > 0 && chars[start - 1] != '/'
        invariant
            start <= chars@.len(),
            last_segment(chars@.take(start as int)) + chars@.skip(start as int) == last_segment(
                chars@,
            ),
        decreases start,
    {
        proof {
            let head = chars@.take(start as int);
            assert(head.drop_last() =~= chars@.take(start - 1));
            assert(last_segment(chars@.take(start - 1)) + chars@.skip(start - 1) =~= last_segment(
                head,
            ) + chars@.skip(start as int));
        }
        start -= 1;
    }
    let name: String = text_of(chars.as_slice(), start, chars.len());
    let name: Vec<char> = chars_of(name.as_str());
    assert(name@ =~= last_segment(chars@)) by {
        let head = chars@.take(start as int);
        assert(last_segment(head) =~= Seq::<char>::empty());
        assert(last_segment(head) + chars@.skip(start as int) =~= chars@.skip(start as int));
    }
    if starts_with(name.as_slice(), "bedrock-server-") {
        let rest: String = text_of(name.as_slice(), 15, name.len());
        let rest: Vec<char> = chars_of(rest.as_str());
        assert(rest@ =~= name@.skip(15));
        if ends_with(rest.as_slice(), ".zip") {
            let version: String = text_of(rest.as_slice(), 0, rest.len() - 4);
            assert(version@ =~= rest@.take(rest@.len() - 4));
            return version;
        }
    }
    "unknown".to_owned()
}

/// The address of the first download for Windows among `links`.
pub open spec fn windows_download(links: Seq<DownloadLink>) -> Option<Seq<char>>
    decreases links.len(),
{
    if links.len() == 0 {
        None
    } else if links[0].download_type@ == "serverBedrockWindows"@ {
        Some(links[0].download_url@)
    } else {
        windows_download(links.skip(1))
    }
}

/// Finds the first download for Windows among `links`.
pub fn find_windows_download(links: &Vec<DownloadLink>) -> (url: Option<String>)
    ensures
        match url {
            Some(url) => windows_download(links@) == Some(url@),
            None => windows_download(links@) is None,
        },
{
    let mut i: usize = 0;
    assert(links@.skip(0) =~= links@);
    while i < links.len()
        invariant
            i <= links@.len(),
            windows_download(links@) == windows_download(links@.skip(i as int)),
        decreases links@.len() - i,
    {
        assert(links@.skip(i as int).skip(1) =~= links@.skip(i + 1));
        if same_text(links[i].download_type.as_str(), "serverBedrockWindows") {
            return Some(links[i].download_url.clone());
        }
        i += 1;
    }
    None
}

/// Whether the server at `url` is not the one that is installed.
pub open spec fn is_stale(
    executable_present: bool,
    installed: Option<InstalledBds>,
    url: Seq<char>,
) -> bool {
    !executable_present || match installed {
        Some(installed) => installed.download_url@ != url,
        None => true,
    }
}

/// Whether the server at `url` has to be installed.
pub fn needs_install(executable_present: bool, installed: &Option<InstalledBds>, url: &str) -> (yes:
    bool)
    ensures
        yes == is_stale(executable_present, *installed, url@),
{
    if !executable_present {
        return true;
    }
    match installed {
        Some(installed) => !same_text(installed.download_url.as_str(), url),
        None => true,
    }
}

/// Create the directory that the server is installed in.
pub struct PrepareRoot {
    pub download_url: String,
}

/// Find out which server is installed.
pub struct PrepareInspection {
    pub download_url: String,
}

/// Download the archive of the server.
pub struct PrepareDownload {
    pub download_url: String,
}

/// Install the archive of the server.
pub struct PrepareInstall {
    pub download_url: String,
    pub archive: Vec<u8>,
}

/// Put the packs of the addons into the server.
pub struct PrepareAddons {
    pub download_url: String,
    pub updated: bool,
}

/// Settle the properties of the server.
pub struct PrepareProperties {
    pub download_url: String,
    pub updated: bool,
    pub behavior_packs: usize,
    pub resource_packs: usize,
}

/// The step at hand. Whoever drives the preparation performs it and hands the outcome
/// back with `resume`, until the step is `Finished` or `Failed`.
pub enum PrepareStep {
    CreateRoot(PrepareRoot),
    Inspect(PrepareInspection),
    Download(PrepareDownload),
    Install(PrepareInstall),
    ApplyAddons(PrepareAddons),
    WriteProperties(PrepareProperties),
    Finished(BdsStatus),
    Failed(String),
}

/// The value of a [`PrepareStep`].
pub enum PrepareStepView {
    CreateRoot(Seq<char>),
    Inspect(Seq<char>),
    Download(Seq<char>),
    Install(Seq<char>, Seq<u8>),
    ApplyAddons(Seq<char>, bool),
    WriteProperties(Seq<char>, bool, usize, usize),
    Finished(BdsStatusView),
    Failed(Seq<char>),
}

/// The value of a [`BdsStatus`].
pub struct BdsStatusView {
    pub version: Seq<char>,
    pub updated: bool,
    pub world_name: Seq<char>,
    pub behavior_packs: usize,
    pub resource_packs: usize,
}

impl View for BdsStatus {
    type V = BdsStatusView;

    open spec fn view(&self) -> BdsStatusView {
        BdsStatusView {
            version: self.version@,
            updated: self.updated,
            world_name: self.world_name@,
            behavior_packs: self.behavior_packs,
            resource_packs: self.resource_packs,
        }
    }
}

impl View for PrepareStep {
    type V = PrepareStepView;

    open spec fn view(&self) -> PrepareStepView {
        match *self {
            PrepareStep::CreateRoot(step) => PrepareStepView::CreateRoot(step.download_url@),
            PrepareStep::Inspect(step) => PrepareStepView::Inspect(step.download_url@),
            PrepareStep::Download(step) => PrepareStepView::Download(step.download_url@),
            PrepareStep::Install(step) => PrepareStepView::Install(
                step.download_url@,
                step.archive@,
            ),
            PrepareStep::ApplyAddons(step) => PrepareStepView::ApplyAddons(
                step.download_url@,
                step.updated,
            ),
            PrepareStep::WriteProperties(step) => PrepareStepView::WriteProperties(
                step.download_url@,
                step.updated,
                step.behavior_packs,
                step.resource_packs,
            ),
            PrepareStep::Finished(status) => PrepareStepView::Finished(status@),
            PrepareStep::Failed(message) => PrepareStepView::Failed(message@),
        }
    }
}

/// The outcome of a step.
pub enum PrepareEvent {
    RootCreated(Result<(), Seq<char>>),
    Inspected(bool, Option<InstalledBds>),
    Downloaded(Result<Seq<u8>, HttpFailure>),
    Installed(Result<(), Seq<char>>),
    AddonsApplied(Result<(usize, usize), Seq<char>>),
    PropertiesWritten(Result<(), Seq<char>>),
}

/// The step that begins the preparation, once the downloads on offer have been asked
/// for.
pub open spec fn first_step(fetched: Result<Seq<DownloadLink>, HttpFailure>) -> PrepareStepView {
    match fetched {
        Ok(links) => match windows_download(links) {
            Some(url) => PrepareStepView::CreateRoot(url),
            None => PrepareStepView::Failed("Windows用BDSダウンロードが見つかりませんでした"@),
        },
        Err(failure) => PrepareStepView::Failed(
            worded(
                failure,
                "BDSダウンロード情報を取得できませんでした: "@,
                "BDSダウンロードAPIがエラーを返しました: "@,
                "BDSダウンロード情報を解析できませんでした: "@,
            ),
        ),
    }
}

/// The step that follows from an outcome. An outcome of another step changes nothing.
pub open spec fn after(step: PrepareStepView, event: PrepareEvent) -> PrepareStepView {
    match (step, event) {
        (PrepareStepView::CreateRoot(url), PrepareEvent::RootCreated(created)) => match created {
            Ok(()) => PrepareStepView::Inspect(url),
            Err(detail) => PrepareStepView::Failed(detail),
        },
        (
            PrepareStepView::Inspect(url),
            PrepareEvent::Inspected(executable_present, installed),
        ) => if is_stale(executable_present, installed, url) {
            PrepareStepView::Download(url)
        } else {
            PrepareStepView::ApplyAddons(url, false)
        },
        (PrepareStepView::Download(url), PrepareEvent::Downloaded(downloaded)) => match downloaded {
            Ok(archive) => PrepareStepView::Install(url, archive),
            Err(failure) => PrepareStepView::Failed(
                worded(
                    failure,
                    "BDSをダウンロードできませんでした: "@,
                    "BDSダウンロードが拒否されました: "@,
                    "BDS ZIPを読み込めませんでした: "@,
                ),
            ),
        },
        (PrepareStepView::Install(url, _), PrepareEvent::Installed(installed)) => match installed {
            Ok(()) => PrepareStepView::ApplyAddons(url, true),
            Err(detail) => PrepareStepView::Failed("BDSをインストールできませんでした: "@ + detail),
        },
        (
            PrepareStepView::ApplyAddons(url, updated),
            PrepareEvent::AddonsApplied(applied),
        ) => match applied {
            Ok((behavior_packs, resource_packs)) => PrepareStepView::WriteProperties(
                url,
                updated,
                behavior_packs,
                resource_packs,
            ),
            Err(detail) => PrepareStepView::Failed(
                "アドオンをBDSへ適用できませんでした: "@ + detail,
            ),
        },
        (
            PrepareStepView::WriteProperties(url, updated, behavior_packs, resource_packs),
            PrepareEvent::PropertiesWritten(written),
        ) => match written {
            Ok(()) => PrepareStepView::Finished(
                BdsStatusView {
                    version: version_of(url),
                    updated,
                    world_name: WORLD_NAME@,
                    behavior_packs,
                    resource_packs,
                },
            ),
            Err(detail) => PrepareStepView::Failed(detail),
        },
        _ => step,
    }
}

/// Begins the preparation with the downloads on offer, if they could be fetched.
pub fn begin_prepare(fetched: Result<Vec<DownloadLink>, HttpFailure>) -> (step: PrepareStep)
    ensures
        step@ == first_step(
            match fetched {
                Ok(links) => Ok(links@),
                Err(failure) => Err(failure),
            },
        ),
{
    match fetched {
        Ok(links) => match find_windows_download(&links) {
            Some(download_url) => PrepareStep::CreateRoot(PrepareRoot { download_url }),
            None => PrepareStep::Failed(
                "Windows用BDSダウンロードが見つかりませんでした".to_owned(),
            ),
        },
        Err(failure) => PrepareStep::Failed(
            failure.message(
                "BDSダウンロード情報を取得できませんでした: ",
                "BDSダウンロードAPIがエラーを返しました: ",
                "BDSダウンロード情報を解析できませんでした: ",
            ),
        ),
    }
}

impl PrepareRoot {
    /// What follows once the directory was created, or could not be.
    pub fn resume(self, created: Result<(), String>) -> (step: PrepareStep)
        ensures
            step@ == after(
                PrepareStepView::CreateRoot(self.download_url@),
                PrepareEvent::RootCreated(outcome(created)),
            ),
    {
        match created {
            Ok(()) => PrepareStep::Inspect(PrepareInspection { download_url: self.download_url }),
            Err(detail) => PrepareStep::Failed(detail),
        }
    }
}

impl PrepareInspection {
    /// What follows from what is installed.
    pub fn resume(self, executable_present: bool, installed: Option<InstalledBds>) -> (step:
        PrepareStep)
        ensures
            step@ == after(
                PrepareStepView::Inspect(self.download_url@),
                PrepareEvent::Inspected(executable_present, installed),
            ),
    {
        let download_url: String = self.download_url;
        if needs_install(executable_present, &installed, download_url.as_str()) {
            PrepareStep::Download(PrepareDownload { download_url })
        } else {
            PrepareStep::ApplyAddons(PrepareAddons { download_url, updated: false })
        }
    }
}

impl PrepareDownload {
    /// What follows from the archive.
    pub fn resume(self, downloaded: Result<Vec<u8>, HttpFailure>) -> (step: PrepareStep)
        ensures
            step@ == after(
                PrepareStepView::Download(self.download_url@),
                PrepareEvent::Downloaded(download(downloaded)),
            ),
    {
        match downloaded {
            Ok(archive) => PrepareStep::Install(
                PrepareInstall { download_url: self.download_url, archive },
            ),
            Err(failure) => PrepareStep::Failed(
                failure.message(
                    "BDSをダウンロードできませんでした: ",
                    "BDSダウンロードが拒否されました: ",
                    "BDS ZIPを読み込めませんでした: ",
                ),
            ),
        }
    }
}

impl PrepareInstall {
    /// What is noted in the server once it is installed.
    pub fn installed(&self) -> (installed: InstalledBds)
        ensures
            installed.download_url@ == self.download_url@,
    {
        InstalledBds { download_url: self.download_url.clone() }
    }

    /// What follows once the archive was installed, or could not be.
    pub fn resume(self, installed: Result<(), String>) -> (step: PrepareStep)
        ensures
            step@ == after(
                PrepareStepView::Install(self.download_url@, self.archive@),
                PrepareEvent::Installed(outcome(installed)),
            ),
    {
        match installed {
            Ok(()) => PrepareStep::ApplyAddons(
                PrepareAddons { download_url: self.download_url, updated: true },
            ),
            Err(detail) => PrepareStep::Failed(
                join("BDSをインストールできませんでした: ", detail.as_str()),
            ),
        }
    }
}

impl PrepareAddons {
    /// What follows from the numbers of behavior packs and resource packs.
    pub fn resume(self, applied: Result<(usize, usize), String>) -> (step: PrepareStep)
        ensures
            step@ == after(
                PrepareStepView::ApplyAddons(self.download_url@, self.updated),
                PrepareEvent::AddonsApplied(outcome(applied)),
            ),
    {
        match applied {
            Ok((behavior_packs, resource_packs)) => PrepareStep::WriteProperties(
                PrepareProperties {
                    download_url: self.download_url,
                    updated: self.updated,
                    behavior_packs,
                    resource_packs,
                },
            ),
            Err(detail) => PrepareStep::Failed(
                join("アドオンをBDSへ適用できませんでした: ", detail.as_str()),
            ),
        }
    }
}

impl PrepareProperties {
    /// What follows once the properties were written, or could not be.
    pub fn resume(self, written: Result<(), String>) -> (step: PrepareStep)
        ensures
            step@ == after(
                PrepareStepView::WriteProperties(
                    self.download_url@,
                    self.updated,
                    self.behavior_packs,
                    self.resource_packs,
                ),
                PrepareEvent::PropertiesWritten(outcome(written)),
            ),
    {
        match written {
            Ok(()) => PrepareStep::Finished(
                BdsStatus {
                    version: version_from_url(self.download_url.as_str()),
                    updated: self.updated,
                    world_name: WORLD_NAME.to_owned(),
                    behavior_packs: self.behavior_packs,
                    resource_packs: self.resource_packs,
                },
            ),
            Err(detail) => PrepareStep::Failed(detail),
        }
    }
}

/// The step that a sequence of outcomes leads to.
pub open spec fn after_all(step: PrepareStepView, events: Seq<PrepareEvent>) -> PrepareStepView
    decreases events.len(),
{
    if events.len() == 0 {
        step
    } else {
        after(after_all(step, events.drop_last()), events.last())
    }
}

/// What holds of every step of a preparation of the server at `url`, where `installed`
/// says whether an installation succeeded on the way.
pub open spec fn step_holds(url: Seq<char>, installed: bool, step: PrepareStepView) -> bool {
    match step {
        PrepareStepView::CreateRoot(at) => at == url && !installed,
        PrepareStepView::Inspect(at) => at == url && !installed,
        PrepareStepView::Download(at) => at == url && !installed,
        PrepareStepView::Install(at, _) => at == url && !installed,
        PrepareStepView::ApplyAddons(at, updated) => at == url && updated == installed,
        PrepareStepView::WriteProperties(at, updated, _, _) => at == url && updated == installed,
        PrepareStepView::Finished(status) => status.version == version_of(url) && status.updated
            == installed && status.world_name == WORLD_NAME@,
        PrepareStepView::Failed(_) => true,
    }
}

/// Whether an installation succeeded among these outcomes.
pub open spec fn has_installed(step: PrepareStepView, events: Seq<PrepareEvent>) -> bool
    decreases events.len(),
{
    events.len() > 0 && (has_installed(step, events.drop_last()) || (after_all(
        step,
        events.drop_last(),
    ) is Install && (events.last() matches PrepareEvent::Installed(Ok(_)))))
}

/// Whatever the outcomes are: it is the first download for Windows that is prepared,
/// and a preparation that finishes says that it updated the server exactly if it
/// installed one.
pub proof fn preparations_tell_whether_they_updated(
    links: Seq<DownloadLink>,
    events: Seq<PrepareEvent>,
)
    requires
        windows_download(links) is Some,
    ensures
        step_holds(
            windows_download(links)->0,
            has_installed(first_step(Ok(links)), events),
            after_all(first_step(Ok(links)), events),
        ),
    decreases events.len(),
{
    if events.len() > 0 {
        preparations_tell_whether_they_updated(links, events.drop_last());
    }
}

/// A server that is installed and on offer is not downloaded again.
pub proof fn current_servers_are_not_downloaded(url: Seq<char>, installed: InstalledBds)
    requires
        installed.download_url@ == url,
    ensures
        after(PrepareStepView::Inspect(url), PrepareEvent::Inspected(true, Some(installed)))
            == PrepareStepView::ApplyAddons(url, false),
{
}

/// A name without a slash is what follows the last slash of an address that it ends.
proof fn lemma_last_segment(base: Seq<char>, name: Seq<char>)
    requires
        !name.contains('/'),
    ensures
        last_segment(base.push('/') + name) == name,
    decreases name.len(),
{
    let url = base.push('/') + name;
    if name.len() == 0 {
        assert(url.last() == '/');
    } else {
        let front = name.drop_last();
        assert(name[name.len() - 1] != '/');
        assert forall|i: int| 0 <= i < front.len() implies front[i] != '/' by {
            assert(name[i] != '/');
        }
        lemma_last_segment(base, front);
        assert(url.drop_last() =~= base.push('/') + front);
        assert(front.push(name.last()) =~= name);
    }
}

/// The version that stands in the name of an archive is read from every address that
/// ends in that name.
pub proof fn versions_are_read_from_addresses(base: Seq<char>, version: Seq<char>)
    requires
        !version.contains('/'),
    ensures
        version_of(base.push('/') + ("bedrock-server-"@ + version + ".zip"@)) == version,
{
    reveal_strlit("bedrock-server-");
    reveal_strlit(".zip");
    let name = "bedrock-server-"@ + version + ".zip"@;
    assert forall|i: int| 0 <= i < name.len() implies name[i] != '/' by {
        if 15 <= i < 15 + version.len() {
            assert(name[i] == version[i - 15]);
            assert(version[i - 15] != '/');
        }
    }
    lemma_last_segment(base, name);
    let rest = name.skip(15);
    assert(rest =~= version + ".zip"@);
    assert(name.subrange(0, 15) =~= "bedrock-server-"@);
    assert(rest.subrange(rest.len() - 4, rest.len() as int) =~= ".zip"@);
    assert(rest.take(rest.len() - 4) =~= version);
}

/// The download that is prepared is the first whose type is literally
/// `serverBedrockWindows`, and there is none exactly if no download has that type.
pub proof fn the_first_download_for_windows_is_prepared(links: Seq<DownloadLink>)
    ensures
        forall|i: int|
            0 <= i < links.len() && (#[trigger] links[i]).download_type@ == "serverBedrockWindows"@
                && (forall|k: int|
                0 <= k < i ==> (#[trigger] links[k]).download_type@ != "serverBedrockWindows"@)
                ==> first_step(Ok(links)) == PrepareStepView::CreateRoot(links[i].download_url@),
        (forall|i: int|
            0 <= i < links.len() ==> (#[trigger] links[i]).download_type@
                != "serverBedrockWindows"@) ==> first_step(Ok(links)) == PrepareStepView::Failed(
            "Windows用BDSダウンロードが見つかりませんでした"@,
        ),
{
    assert forall|i: int|
        0 <= i < links.len() && (#[trigger] links[i]).download_type@ == "serverBedrockWindows"@ && (
        forall|k: int|
            0 <= k < i ==> (#[trigger] links[k]).download_type@ != "serverBedrockWindows"@)
        implies first_step(Ok(links)) == PrepareStepView::CreateRoot(links[i].download_url@) by {
        lemma_windows_download(links, i);
    }
    if forall|i: int|
        0 <= i < links.len() ==> (#[trigger] links[i]).download_type@ != "serverBedrockWindows"@ {
        lemma_windows_download(links, links.len() as int);
    }
}

proof fn lemma_windows_download(links: Seq<DownloadLink>, i: int)
    requires
        0 <= i <= links.len(),
        forall|k: int|
            0 <= k < i ==> (#[trigger] links[k]).download_type@ != "serverBedrockWindows"@,
        i < links.len() ==> links[i].download_type@ == "serverBedrockWindows"@,
    ensures
        i < links.len() ==> windows_download(links) == Some(links[i].download_url@),
        i == links.len() ==> windows_download(links) is None,
    decreases links.len(),
{
    if links.len() > 0 && i > 0 {
        assert(links[0].download_type@ != "serverBedrockWindows"@);
        let rest = links.skip(1);
        assert forall|k: int| 0 <= k < i - 1 implies (#[trigger] rest[k]).download_type@
            != "serverBedrockWindows"@ by {
            assert(rest[k] == links[k + 1]);
        }
        lemma_windows_download(rest, i - 1);
    }
}

/// A server is downloaded exactly if its program is missing, or what is noted of its
/// origin is missing or is not, letter for letter, the address on offer.
pub proof fn servers_are_downloaded_exactly_if_they_differ(
    url: Seq<char>,
    executable_present: bool,
    installed: Option<InstalledBds>,
)
    ensures
        after(
            PrepareStepView::Inspect(url),
            PrepareEvent::Inspected(executable_present, installed),
        ) == if executable_present && installed is Some && installed->0.download_url@ == url {
            PrepareStepView::ApplyAddons(url, false)
        } else {
            PrepareStepView::Download(url)
        },
{
}

/// What a preparation comes to where nothing fails: with a download and an installation
/// of what was downloaded where the server differs, and without where it does not, it
/// finishes, and tells the version, whether the server was installed, the world, and the
/// numbers of packs that were applied.
pub proof fn preparations_without_trouble_finish(
    url: Seq<char>,
    executable_present: bool,
    installed: Option<InstalledBds>,
    archive: Seq<u8>,
    behavior_packs: usize,
    resource_packs: usize,
)
    ensures
        ({
            let current = executable_present && installed is Some && installed->0.download_url@
                == url;
            let inspect = after(
                PrepareStepView::CreateRoot(url),
                PrepareEvent::RootCreated(Ok(())),
            );
            let inspected = after(inspect, PrepareEvent::Inspected(executable_present, installed));
            let apply = if current {
                inspected
            } else {
                after(
                    after(inspected, PrepareEvent::Downloaded(Ok(archive))),
                    PrepareEvent::Installed(Ok(())),
                )
            };
            let write = after(
                apply,
                PrepareEvent::AddonsApplied(Ok((behavior_packs, resource_packs))),
            );
            &&& !current ==> after(inspected, PrepareEvent::Downloaded(Ok(archive)))
                == PrepareStepView::Install(url, archive)
            &&& after(write, PrepareEvent::PropertiesWritten(Ok(()))) == PrepareStepView::Finished(
                BdsStatusView {
                    version: version_of(url),
                    updated: !current,
                    world_name: "Werewolf"@,
                    behavior_packs,
                    resource_packs,
                },
            )
        }),
{
}

/// A preparation fails exactly where one of its steps does.
pub proof fn preparations_fail_exactly_where_a_step_does(
    step: PrepareStepView,
    event: PrepareEvent,
)
    requires
        step !is Failed,
    ensures
        after(step, event) is Failed <==> {
            ||| step is CreateRoot && event is RootCreated && event->RootCreated_0 is Err
            ||| step is Download && event is Downloaded && event->Downloaded_0 is Err
            ||| step is Install && event is Installed && event->Installed_0 is Err
            ||| step is ApplyAddons && event is AddonsApplied && event->AddonsApplied_0 is Err
            ||| step is WriteProperties && event is PropertiesWritten
                && event->PropertiesWritten_0 is Err
        },
{
}

/// What is said of a preparation that fails: what failed, and all that is known of why.
pub proof fn failed_preparations_are_told_in_full(
    url: Seq<char>,
    archive: Seq<u8>,
    updated: bool,
    behavior_packs: usize,
    resource_packs: usize,
    failure: HttpFailure,
    detail: Seq<char>,
)
    ensures
        ({
            let why = failure.detail@;
            &&& first_step(Err(failure)) == PrepareStepView::Failed(
                match failure.stage {
                    HttpStage::Send => "BDSダウンロード情報を取得できませんでした: "@ + why,
                    HttpStage::Status => "BDSダウンロードAPIがエラーを返しました: "@ + why,
                    HttpStage::Body => "BDSダウンロード情報を解析できませんでした: "@ + why,
                },
            )
            &&& after(
                PrepareStepView::CreateRoot(url),
                PrepareEvent::RootCreated(Err(detail)),
            ) == PrepareStepView::Failed(detail)
            &&& after(
                PrepareStepView::Download(url),
                PrepareEvent::Downloaded(Err(failure)),
            ) == PrepareStepView::Failed(
                match failure.stage {
                    HttpStage::Send => "BDSをダウンロードできませんでした: "@ + why,
                    HttpStage::Status => "BDSダウンロードが拒否されました: "@ + why,
                    HttpStage::Body => "BDS ZIPを読み込めませんでした: "@ + why,
                },
            )
            &&& after(
                PrepareStepView::Install(url, archive),
                PrepareEvent::Installed(Err(detail)),
            ) == PrepareStepView::Failed("BDSをインストールできませんでした: "@ + detail)
            &&& after(
                PrepareStepView::ApplyAddons(url, updated),
                PrepareEvent::AddonsApplied(Err(detail)),
            ) == PrepareStepView::Failed("アドオンをBDSへ適用できませんでした: "@ + detail)
            &&& after(
                PrepareStepView::WriteProperties(url, updated, behavior_packs, resource_packs),
                PrepareEvent::PropertiesWritten(Err(detail)),
            ) == PrepareStepView::Failed(detail)
        }),
{
}

/// A version is told only where the name behind the last slash gives one: where it is that
/// version between the literal texts `bedrock-server-` and `.zip`. Everywhere else the
/// version is unknown.
pub proof fn versions_stand_in_the_name(url: Seq<char>)
    ensures
        version_of(url) == "unknown"@ || ("bedrock-server-"@ + version_of(url)
            + ".zip"@).is_suffix_of(url),
        !version_of(url).contains('/'),
{
    reveal_strlit("bedrock-server-");
    reveal_strlit(".zip");
    reveal_strlit("unknown");
    lemma_last_segment_ends(url);
    let name = last_segment(url);
    let rest = name.skip(15);
    if "bedrock-server-"@.is_prefix_of(name) && ".zip"@.is_suffix_of(rest) {
        let version = version_of(url);
        assert(name.subrange(0, 15) =~= "bedrock-server-"@);
        assert(rest.subrange(rest.len() - 4, rest.len() as int) =~= ".zip"@);
        let whole = "bedrock-server-"@ + version + ".zip"@;
        assert(whole =~= name);
        assert(url.subrange(url.len() - whole.len(), url.len() as int) =~= whole);
        assert forall|i: int| 0 <= i < version.len() implies version[i] != '/' by {
            assert(version[i] == name[15 + i]);
        }
    } else {
        assert(version_of(url) == "unknown"@);
        assert forall|i: int| 0 <= i < "unknown"@.len() implies "unknown"@[i] != '/' by {}
    }
}

proof fn lemma_last_segment_ends(url: Seq<char>)
    ensures
        last_segment(url).len() <= url.len(),
        last_segment(url) == url.skip(url.len() - last_segment(url).len()),
        forall|i: int| 0 <= i < last_segment(url).len() ==> #[trigger] last_segment(url)[i] != '/',
    decreases url.len(),
{
    if url.len() > 0 && url.last() != '/' {
        let front = url.drop_last();
        lemma_last_segment_ends(front);
        assert(last_segment(url) =~= url.skip(url.len() - last_segment(url).len()));
        assert forall|i: int| 0 <= i < last_segment(url).len() implies #[trigger] last_segment(url)[i]
            != '/' by {
            if i < last_segment(front).len() {
                assert(last_segment(url)[i] == last_segment(front)[i]);
            }
        }
    } else {
        assert(url.skip(url.len() as int) =~= Seq::empty());
    }
}

} // verus!
