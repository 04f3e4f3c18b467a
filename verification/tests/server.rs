use werewolf_launcher::bds::{
    begin_prepare, find_windows_download, needs_install, version_from_url, DownloadLink,
    InstalledBds, PrepareInspection, PrepareStep,
};
use werewolf_launcher::failure::{HttpFailure, HttpStage};
use werewolf_launcher::launch::{
    begin_launch, FindProgram, LaunchResult, LaunchStep, ProcessState, StartProgram,
};

#[test]
fn reads_bds_version_from_download_url() {
    assert_eq!(
        version_from_url("https://example.test/bin-win/bedrock-server-1.26.33.2.zip"),
        "1.26.33.2"
    );
}

#[test]
fn other_names_have_no_version() {
    for url in [
        "",
        "https://example.test/",
        "https://example.test/server-1.2.zip",
        "https://example.test/bedrock-server-1.2.tar",
        "https://example.test/bedrock-server-1.2.zip/",
        "https://example.test/bedrock-server-1.2.zip?x",
        "bedrock-server-zip",
    ] {
        assert_eq!(version_from_url(url), "unknown", "{url}");
    }
    assert_eq!(version_from_url("bedrock-server-1.zip"), "1");
    assert_eq!(version_from_url("/bedrock-server-.zip"), "");
    assert_eq!(version_from_url("a/bedrock-server-x.zip/bedrock-server-y.zip.zip"), "y.zip");
}

fn link(kind: &str, url: &str) -> DownloadLink {
    DownloadLink { download_type: kind.to_owned(), download_url: url.to_owned() }
}

const URL: &str = "https://example.test/bedrock-server-1.26.33.2.zip";

fn links() -> Vec<DownloadLink> {
    vec![
        link("serverBedrockLinux", "https://example.test/linux.zip"),
        link("serverBedrockWindows", URL),
        link("serverBedrockWindows", "https://example.test/second.zip"),
    ]
}

#[test]
fn finds_the_first_download_for_windows() {
    assert_eq!(find_windows_download(&links()).as_deref(), Some(URL));
    assert_eq!(find_windows_download(&vec![link("serverJar", "x")]), None);
    assert_eq!(find_windows_download(&Vec::new()), None);
}

#[test]
fn installs_what_is_missing_or_another() {
    let installed = || Some(InstalledBds { download_url: URL.to_owned() });
    assert!(!needs_install(true, &installed(), URL));
    assert!(needs_install(false, &installed(), URL));
    assert!(needs_install(true, &installed(), "https://example.test/new.zip"));
    assert!(needs_install(true, &None, URL));
}

fn message(step: PrepareStep) -> String {
    match step {
        PrepareStep::Failed(message) => message,
        _ => panic!("not failed"),
    }
}

fn inspecting() -> PrepareInspection {
    match begin_prepare(Ok(links())) {
        PrepareStep::CreateRoot(step) => match step.resume(Ok(())) {
            PrepareStep::Inspect(step) => step,
            _ => panic!("not inspecting"),
        },
        _ => panic!("not begun"),
    }
}

fn failed(stage: HttpStage) -> HttpFailure {
    HttpFailure { stage, detail: "detail".to_owned() }
}

#[test]
fn prepares_a_new_server() {
    let download = match inspecting().resume(false, None) {
        PrepareStep::Download(step) => step,
        _ => panic!("not downloading"),
    };
    assert_eq!(download.download_url, URL);
    let install = match download.resume(Ok(vec![1, 2, 3])) {
        PrepareStep::Install(step) => step,
        _ => panic!("not installing"),
    };
    assert_eq!(install.archive, vec![1, 2, 3]);
    assert_eq!(install.installed().download_url, URL);
    let addons = match install.resume(Ok(())) {
        PrepareStep::ApplyAddons(step) => step,
        _ => panic!("not applying"),
    };
    let properties = match addons.resume(Ok((2, 1))) {
        PrepareStep::WriteProperties(step) => step,
        _ => panic!("not writing"),
    };
    match properties.resume(Ok(())) {
        PrepareStep::Finished(status) => {
            assert_eq!(status.version, "1.26.33.2");
            assert!(status.updated);
            assert_eq!(status.world_name, "Werewolf");
            assert_eq!(status.behavior_packs, 2);
            assert_eq!(status.resource_packs, 1);
        }
        _ => panic!("not finished"),
    }
}

#[test]
fn keeps_a_server_that_is_current() {
    let installed = InstalledBds { download_url: URL.to_owned() };
    let addons = match inspecting().resume(true, Some(installed)) {
        PrepareStep::ApplyAddons(step) => step,
        _ => panic!("not applying"),
    };
    let properties = match addons.resume(Ok((0, 0))) {
        PrepareStep::WriteProperties(step) => step,
        _ => panic!("not writing"),
    };
    match properties.resume(Ok(())) {
        PrepareStep::Finished(status) => assert!(!status.updated),
        _ => panic!("not finished"),
    }
}

#[test]
fn preparations_can_fail() {
    for (stage, expected) in [
        (HttpStage::Send, "BDSダウンロード情報を取得できませんでした: detail"),
        (HttpStage::Status, "BDSダウンロードAPIがエラーを返しました: detail"),
        (HttpStage::Body, "BDSダウンロード情報を解析できませんでした: detail"),
    ] {
        assert_eq!(message(begin_prepare(Err(failed(stage)))), expected);
    }
    assert_eq!(
        message(begin_prepare(Ok(Vec::new()))),
        "Windows用BDSダウンロードが見つかりませんでした"
    );
    match begin_prepare(Ok(links())) {
        PrepareStep::CreateRoot(step) => {
            assert_eq!(message(step.resume(Err("denied".to_owned()))), "denied");
        }
        _ => panic!("not begun"),
    }
}

#[test]
fn downloads_and_installations_can_fail() {
    let download = || match inspecting().resume(false, None) {
        PrepareStep::Download(step) => step,
        _ => panic!("not downloading"),
    };
    for (stage, expected) in [
        (HttpStage::Send, "BDSをダウンロードできませんでした: detail"),
        (HttpStage::Status, "BDSダウンロードが拒否されました: detail"),
        (HttpStage::Body, "BDS ZIPを読み込めませんでした: detail"),
    ] {
        assert_eq!(message(download().resume(Err(failed(stage)))), expected);
    }
    let install = || match download().resume(Ok(Vec::new())) {
        PrepareStep::Install(step) => step,
        _ => panic!("not installing"),
    };
    assert_eq!(
        message(install().resume(Err("full".to_owned()))),
        "BDSをインストールできませんでした: full"
    );
    let addons = || match install().resume(Ok(())) {
        PrepareStep::ApplyAddons(step) => step,
        _ => panic!("not applying"),
    };
    assert_eq!(
        message(addons().resume(Err("full".to_owned()))),
        "アドオンをBDSへ適用できませんでした: full"
    );
    match addons().resume(Ok((0, 0))) {
        PrepareStep::WriteProperties(step) => {
            assert_eq!(message(step.resume(Err("denied".to_owned()))), "denied");
        }
        _ => panic!("not writing"),
    }
}

fn complaint(step: LaunchStep) -> String {
    match step {
        LaunchStep::Failed(message) => message,
        _ => panic!("not failed"),
    }
}

fn probed(state: ProcessState) -> LaunchStep {
    match begin_launch() {
        LaunchStep::Probe(request) => request.resume(state),
        _ => panic!("not begun"),
    }
}

fn finding(state: ProcessState) -> FindProgram {
    match probed(state) {
        LaunchStep::Find(request) => request,
        _ => panic!("not finding"),
    }
}

fn starting() -> StartProgram {
    match finding(ProcessState::Ended).resume(true) {
        LaunchStep::OpenLog(request) => match request.resume(Ok(())) {
            LaunchStep::Start(request) => request,
            _ => panic!("not starting"),
        },
        _ => panic!("not opening"),
    }
}

fn launched(pid: u32, properties: Option<&str>) -> LaunchResult {
    match starting().resume(Ok(pid)) {
        LaunchStep::ReadProperties(request) => {
            assert_eq!(request.pid, pid);
            match request.resume(properties.map(str::to_owned)) {
                LaunchStep::Finished(result) => result,
                _ => panic!("not finished"),
            }
        }
        _ => panic!("not reading"),
    }
}

#[test]
fn servers_are_launched_only_once() {
    assert_eq!(complaint(probed(ProcessState::Running)), "BDSは既に起動しています");
    assert_eq!(complaint(probed(ProcessState::Lost)), "BDSプロセス状態を取得できませんでした");
    assert_eq!(complaint(probed(ProcessState::Unknown("denied".to_owned()))), "denied");
    for state in [ProcessState::Absent, ProcessState::Ended] {
        finding(state);
    }
}

#[test]
fn only_prepared_servers_are_launched() {
    assert_eq!(
        complaint(finding(ProcessState::Absent).resume(false)),
        "BDSが準備されていません"
    );
}

#[test]
fn launches_can_fail() {
    match finding(ProcessState::Absent).resume(true) {
        LaunchStep::OpenLog(request) => {
            assert_eq!(complaint(request.resume(Err("full".to_owned()))), "full");
        }
        _ => panic!("not opening"),
    }
    assert_eq!(
        complaint(starting().resume(Err("denied".to_owned()))),
        "BDSを起動できませんでした: denied"
    );
}

#[test]
fn launched_servers_are_local() {
    let result = launched(4711, Some("server-port=20000"));
    assert_eq!(result.pid, 4711);
    assert_eq!(result.address, "127.0.0.1");
    assert_eq!(result.port, 20000);
    assert_eq!(result.world_name, "Werewolf");
    assert_eq!(launched(1, None).port, 19132);
    assert_eq!(launched(1, Some("server-port=x")).port, 19132);
}
