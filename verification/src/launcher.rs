//! What the launcher itself says and does: finding and installing its own updates, and
//! preparing the server with its addons.

use vstd::prelude::*;

use crate::bds::BdsStatus;
use crate::text::join;
use crate::updater::UpdateResult;

verus! {

/// Where the launcher learns which addons to keep up to date.
pub const LAUNCHER_CONFIG_URL: &'static str = "https://mc-werewolf.com/api/launcher/v1/config";

/// An update of the launcher.
pub struct AppUpdate {
    pub current_version: String,
    pub version: String,
    pub notes: Option<String>,
}

/// The update that is on offer, if one is: its version and its notes.
pub fn offered_update(
    current_version: String,
    offered: Option<(String, Option<String>)>,
) -> (update: Option<AppUpdate>)
    ensures
        update == match offered {
            Some((version, notes)) => Some(AppUpdate { current_version, version, notes }),
            None => None,
        },
{
    match offered {
        Some((version, notes)) => Some(AppUpdate { current_version, version, notes }),
        None => None,
    }
}

/// Accepts an installation if an update is on offer.
pub fn may_install_update(offered: bool) -> (allowed: Result<(), String>)
    ensures
        match allowed {
            Ok(()) => offered,
            Err(message) => !offered && message@ == "利用可能な更新はありません。"@,
        },
{
    if offered {
        Ok(())
    } else {
        Err("利用可能な更新はありません。".to_owned())
    }
}

/// What the launcher can fail at.
pub enum LauncherStage {
    /// Making ready to look for updates.
    Initialize,
    /// Looking for updates.
    Check,
    /// Installing an update.
    Install,
    /// Finding the directory of its data.
    DataDirectory,
}

/// What is said of a failure.
pub open spec fn failure_text(stage: LauncherStage, detail: Seq<char>) -> Seq<char> {
    match stage {
        LauncherStage::Initialize => "更新機能を初期化できませんでした: "@ + detail,
        LauncherStage::Check => "更新情報を確認できませんでした: "@ + detail,
        LauncherStage::Install => "更新をインストールできませんでした: "@ + detail,
        LauncherStage::DataDirectory => "アプリデータディレクトリを取得できませんでした: "@ + detail,
    }
}

/// What is said of a failure.
pub fn launcher_failure(stage: LauncherStage, detail: &str) -> (message: String)
    ensures
        message@ == failure_text(stage, detail@),
{
    match stage {
        LauncherStage::Initialize => join("更新機能を初期化できませんでした: ", detail),
        LauncherStage::Check => join("更新情報を確認できませんでした: ", detail),
        LauncherStage::Install => join("更新をインストールできませんでした: ", detail),
        LauncherStage::DataDirectory => join(
            "アプリデータディレクトリを取得できませんでした: ",
            detail,
        ),
    }
}

/// A server, prepared with its addons.
pub struct PrepareResult {
    pub addons: Vec<UpdateResult>,
    pub bds: BdsStatus,
}

/// What is said of a failure: what failed, and all that is known of why.
pub proof fn failures_are_told_in_full(detail: Seq<char>)
    ensures
        failure_text(LauncherStage::Initialize, detail) == "更新機能を初期化できませんでした: "@ + detail,
        failure_text(LauncherStage::Check, detail) == "更新情報を確認できませんでした: "@ + detail,
        failure_text(LauncherStage::Install, detail) == "更新をインストールできませんでした: "@ + detail,
        failure_text(LauncherStage::DataDirectory, detail)
            == "アプリデータディレクトリを取得できませんでした: "@ + detail,
{
}

} // verus!
