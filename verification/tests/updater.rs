use werewolf_launcher::failure::{HttpFailure, HttpStage};
use werewolf_launcher::update::{begin_update, InstalledRequest, UpdateStep};
use werewolf_launcher::updater::{
    absolute_url, addon_ids, check_archive, validate_addon_id, verify_archive, LauncherAddon,
    LauncherConfig, RegistryVersion, UpdateResult,
};

#[test]
fn resolves_relative_registry_urls() {
    assert_eq!(
        absolute_url("https://kairojs.com/", "/api/v1/addons/kairo"),
        "https://kairojs.com/api/v1/addons/kairo"
    );
}

#[test]
fn rejects_unsafe_addon_ids() {
    assert!(validate_addon_id("game-manager").is_ok());
    assert!(validate_addon_id("../escape").is_err());
}

#[test]
fn joins_urls_with_one_slash() {
    for registry in ["https://kairojs.com", "https://kairojs.com/", "https://kairojs.com///"] {
        for value in ["a/b", "/a/b"] {
            assert_eq!(absolute_url(registry, value), "https://kairojs.com/a/b");
        }
    }
    assert_eq!(absolute_url("https://kairojs.com/", ""), "https://kairojs.com/");
    assert_eq!(absolute_url("https://kairojs.com/", "//x"), "https://kairojs.com//x");
}

#[test]
fn keeps_absolute_urls() {
    for url in ["http://a.test/x", "https://b.test/"] {
        assert_eq!(absolute_url("https://kairojs.com", url), url);
        let resolved = absolute_url("https://kairojs.com", "x");
        assert_eq!(absolute_url("https://kairojs.com", &resolved), resolved);
    }
    assert_eq!(absolute_url("r", "ftp://a"), "r/ftp://a");
}

#[test]
fn says_which_id_is_wrong() {
    for id in ["", "A", "a b", "a_b", "a.b", "é", "a/b", "a\\b"] {
        assert_eq!(validate_addon_id(id).unwrap_err(), format!("不正なアドオンIDです: {id}"));
    }
    for id in ["a", "0", "-", "kairo-2"] {
        assert!(validate_addon_id(id).is_ok());
    }
}

const ABC: &str = "ba7816bf8f01cfea414140de5dae2223b00361a396177a9cb410ff61f20015ad";

fn release(version: &str, file_size: u64, sha256: &str) -> RegistryVersion {
    RegistryVersion {
        version: version.to_owned(),
        file_size,
        sha256: sha256.to_owned(),
        download_url: "/files/addon.zip".to_owned(),
    }
}

#[test]
fn accepts_archives_with_the_right_digest() {
    assert!(verify_archive(b"abc", &release("1", 3, ABC)).is_ok());
    assert!(verify_archive(b"abc", &release("1", 3, &ABC.to_uppercase())).is_ok());
    let empty = "e3b0c44298fc1c149afbf4c8996fb92427ae41e4649b934ca495991b7852b855";
    assert!(verify_archive(b"", &release("1", 0, empty)).is_ok());
}

#[test]
fn refuses_archives_of_another_size() {
    assert_eq!(
        verify_archive(b"abc", &release("1", 1_000, ABC)).unwrap_err(),
        "ファイルサイズが一致しません (expected 1000, got 3)"
    );
}

#[test]
fn refuses_archives_with_another_digest() {
    for bytes in [b"abd", b"ABC"] {
        assert_eq!(
            verify_archive(bytes, &release("1", 3, ABC)).unwrap_err(),
            "SHA-256が一致しません"
        );
    }
    assert!(check_archive(3, &[0xab, 0x01], &release("1", 3, "AB01")).is_ok());
    assert!(check_archive(3, &[0xab, 0x01], &release("1", 3, "AB02")).is_err());
}

fn config(ids: &[&str]) -> LauncherConfig {
    let mut addons = Vec::new();
    for id in ids {
        addons.push(LauncherAddon {
            id: (*id).to_owned(),
            required: *id == "kairo",
            latest_version_url: format!("/latest/{id}"),
        });
    }
    LauncherConfig { registry_url: "https://kairojs.com/".to_owned(), addons }
}

fn failed(stage: HttpStage) -> HttpFailure {
    HttpFailure { stage, detail: "detail".to_owned() }
}

fn message(step: UpdateStep) -> String {
    match step {
        UpdateStep::Failed(message) => message,
        _ => panic!("not failed"),
    }
}

fn started(ids: &[&str]) -> UpdateStep {
    match begin_update(Ok(config(ids))) {
        UpdateStep::CreateRoot(request) => request.resume(Ok(())),
        _ => panic!("not begun"),
    }
}

fn asked(step: UpdateStep, url: &str, release: RegistryVersion) -> InstalledRequest {
    match step {
        UpdateStep::FetchRelease(request) => {
            assert_eq!(request.url(), url);
            match request.resume(Ok(release)) {
                UpdateStep::ReadInstalled(request) => request,
                _ => panic!("not read"),
            }
        }
        _ => panic!("not fetched"),
    }
}

#[test]
fn updates_what_is_not_current() {
    let request = asked(
        started(&["kairo", "game-manager"]),
        "https://kairojs.com/latest/kairo",
        release("2.0", 3, ABC),
    );
    let current = request.release.installed();
    assert_eq!(current.version, "2.0");
    assert_eq!(current.sha256, ABC);
    let step = request.resume(Some(current));
    let request = asked(
        step,
        "https://kairojs.com/latest/game-manager",
        release("1.5", 3, ABC),
    );
    let mut old = request.release.installed();
    old.version = "1.4".to_owned();
    let request = match request.resume(Some(old)) {
        UpdateStep::Download(request) => request,
        _ => panic!("not downloaded"),
    };
    assert_eq!(request.url(), "https://kairojs.com/files/addon.zip");
    let request = match request.resume(Ok(b"abc".to_vec())) {
        UpdateStep::Install(request) => request,
        _ => panic!("not installed"),
    };
    assert_eq!(request.archive, b"abc");
    assert_eq!(request.progress.addon_id(), "game-manager");
    match request.resume(Ok(())) {
        UpdateStep::Finished(results) => {
            assert_eq!(results.len(), 2);
            assert_eq!(results[0].addon_id(), "kairo");
            assert_eq!(results[0].version, "2.0");
            assert!(results[0].required);
            assert!(!results[0].updated);
            assert_eq!(results[1].addon_id(), "game-manager");
            assert_eq!(results[1].version, "1.5");
            assert!(!results[1].required);
            assert!(results[1].updated);
            assert_eq!(addon_ids(&results), vec!["kairo".to_owned(), "game-manager".to_owned()]);
        }
        _ => panic!("not finished"),
    }
}

#[test]
fn installed_digests_count_too() {
    let request = asked(
        started(&["kairo"]),
        "https://kairojs.com/latest/kairo",
        release("2.0", 3, ABC),
    );
    let mut other = request.release.installed();
    other.sha256 = ABC.to_uppercase();
    assert!(matches!(request.resume(Some(other)), UpdateStep::Download(_)));
    let request = asked(
        started(&["kairo"]),
        "https://kairojs.com/latest/kairo",
        release("2.0", 3, ABC),
    );
    assert!(matches!(request.resume(None), UpdateStep::Download(_)));
}

#[test]
fn nothing_to_update_finishes_at_once() {
    match started(&[]) {
        UpdateStep::Finished(results) => assert!(results.is_empty()),
        _ => panic!("not finished"),
    }
    let none: Vec<UpdateResult> = Vec::new();
    assert!(addon_ids(&none).is_empty());
}

#[test]
fn configurations_can_fail() {
    for (stage, expected) in [
        (HttpStage::Send, "ランチャー構成を取得できませんでした: detail"),
        (HttpStage::Status, "ランチャー構成APIがエラーを返しました: detail"),
        (HttpStage::Body, "ランチャー構成を解析できませんでした: detail"),
    ] {
        assert_eq!(message(begin_update(Err(failed(stage)))), expected);
    }
    match begin_update(Ok(config(&["a"]))) {
        UpdateStep::CreateRoot(request) => {
            assert_eq!(message(request.resume(Err("denied".to_owned()))), "denied");
        }
        _ => panic!("not begun"),
    }
    assert_eq!(message(started(&["../x"])), "不正なアドオンIDです: ../x");
}

#[test]
fn releases_can_fail() {
    for (stage, expected) in [
        (HttpStage::Send, "kairoの更新情報を取得できませんでした: detail"),
        (HttpStage::Status, "kairoの更新情報APIがエラーを返しました: detail"),
        (HttpStage::Body, "kairoの更新情報を解析できませんでした: detail"),
    ] {
        match started(&["kairo"]) {
            UpdateStep::FetchRelease(request) => {
                assert_eq!(message(request.resume(Err(failed(stage)))), expected);
            }
            _ => panic!("not fetched"),
        }
    }
}

#[test]
fn downloads_can_fail() {
    let request = || {
        match asked(started(&["kairo"]), "https://kairojs.com/latest/kairo", release("2", 3, ABC))
            .resume(None)
        {
            UpdateStep::Download(request) => request,
            _ => panic!("not downloaded"),
        }
    };
    for (stage, expected) in [
        (HttpStage::Send, "kairoをダウンロードできませんでした: detail"),
        (HttpStage::Status, "kairoのダウンロードが拒否されました: detail"),
        (HttpStage::Body, "kairoを読み込めませんでした: detail"),
    ] {
        assert_eq!(message(request().resume(Err(failed(stage)))), expected);
    }
    assert_eq!(message(request().resume(Ok(b"abd".to_vec()))), "SHA-256が一致しません");
    match request().resume(Ok(b"abc".to_vec())) {
        UpdateStep::Install(request) => assert_eq!(
            message(request.resume(Err("full".to_owned()))),
            "kairoをインストールできませんでした: full"
        ),
        _ => panic!("not installed"),
    }
}

#[test]
fn second_updates_leave_everything_alone() {
    let mut step = started(&["kairo", "game-manager"]);
    for id in ["kairo", "game-manager"] {
        let request =
            asked(step, &format!("https://kairojs.com/latest/{id}"), release(id, 3, ABC));
        let current = request.release.installed();
        step = request.resume(Some(current));
    }
    match step {
        UpdateStep::Finished(results) => {
            for result in &results {
                assert_eq!(result.version, result.addon_id);
                assert!(!result.updated);
            }
            assert_eq!(results.len(), 2);
        }
        _ => panic!("not finished"),
    }
}
