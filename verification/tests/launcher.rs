use werewolf_launcher::launcher::{
    launcher_failure, may_install_update, offered_update, LauncherStage,
};

#[test]
fn updates_of_the_launcher_are_offered() {
    let update = offered_update(
        "1.0.0".to_owned(),
        Some(("1.1.0".to_owned(), Some("notes".to_owned()))),
    )
    .unwrap();
    assert_eq!(update.current_version, "1.0.0");
    assert_eq!(update.version, "1.1.0");
    assert_eq!(update.notes.as_deref(), Some("notes"));
    assert!(offered_update("1.0.0".to_owned(), None).is_none());
}

#[test]
fn only_offered_updates_are_installed() {
    assert!(may_install_update(true).is_ok());
    assert_eq!(may_install_update(false).unwrap_err(), "利用可能な更新はありません。");
}

#[test]
fn the_launcher_says_what_failed() {
    for (stage, expected) in [
        (LauncherStage::Initialize, "更新機能を初期化できませんでした: x"),
        (LauncherStage::Check, "更新情報を確認できませんでした: x"),
        (LauncherStage::Install, "更新をインストールできませんでした: x"),
        (LauncherStage::DataDirectory, "アプリデータディレクトリを取得できませんでした: x"),
    ] {
        assert_eq!(launcher_failure(stage, "x"), expected);
    }
}
