use std::collections::BTreeMap;
use std::path::Path;

use werewolf_launcher::install::{
    backup_name, preserved_name, staging_name, Fault, InstallKind, Installation, PreserveStep,
    Stage,
};
use werewolf_launcher::replace::{is_file_name, temporary_name, ReplaceStage, Replacement};

/// The operation at hand, in a word.
fn word(stage: &Stage) -> String {
    match stage {
        Stage::ProbeStaging => "staging?".to_owned(),
        Stage::ClearStaging => "-staging".to_owned(),
        Stage::ProbeBackup => "backup?".to_owned(),
        Stage::ClearBackup => "-backup".to_owned(),
        Stage::CreateStaging => "+staging".to_owned(),
        Stage::Unpack => "unpack".to_owned(),
        Stage::DiscardProbe(_) => "discard?".to_owned(),
        Stage::Discard(_) => "discard".to_owned(),
        Stage::CheckExecutable => "server?".to_owned(),
        Stage::WriteMarker => "mark".to_owned(),
        Stage::ProbeCurrent => "current?".to_owned(),
        Stage::Preserve(item, step) => {
            let step = match step {
                PreserveStep::Source => "source?",
                PreserveStep::Destination => "destination?",
                PreserveStep::Kind => "directory?",
                PreserveStep::RemoveTree => "-tree",
                PreserveStep::RemoveFile => "-file",
                PreserveStep::Copy => "copy",
            };
            format!("{} {step}", preserved_name(*item))
        }
        Stage::MoveAside => "aside".to_owned(),
        Stage::MoveIn => "in".to_owned(),
        Stage::RollbackProbe(_) => "rollback?".to_owned(),
        Stage::Rollback(_) => "rollback".to_owned(),
        Stage::ProbeOld => "old?".to_owned(),
        Stage::ClearOld => "-old".to_owned(),
        Stage::Done => "done".to_owned(),
        Stage::Failed(_) => "failed".to_owned(),
    }
}

/// Runs an installation in which questions are answered with yes where they are among
/// `yes`, and operations fail where they are among `broken`.
fn run(kind: InstallKind, yes: &[&str], broken: &[&str]) -> (Vec<String>, Option<String>) {
    let mut installation = Installation::begin(kind);
    let mut words = Vec::new();
    loop {
        let at = word(&installation.stage);
        words.push(at.clone());
        match installation.stage {
            Stage::Done => return (words, None),
            Stage::Failed(fault) => return (words, Some(fault.message())),
            stage => {
                let outcome = if broken.contains(&at.as_str()) {
                    Err(format!("{at} broke"))
                } else {
                    Ok(yes.contains(&at.as_str()))
                };
                installation = Installation { kind: installation.kind, stage }.resume(outcome);
            }
        }
    }
}

#[test]
fn addons_are_installed_where_none_was() {
    let (words, fault) = run(InstallKind::Addon, &[], &[]);
    assert_eq!(
        words,
        ["staging?", "backup?", "+staging", "unpack", "mark", "current?", "in", "old?", "done"]
    );
    assert!(fault.is_none());
}

#[test]
fn addons_replace_what_was_installed() {
    let (words, fault) =
        run(InstallKind::Addon, &["staging?", "backup?", "current?", "old?"], &[]);
    assert_eq!(
        words,
        [
            "staging?", "-staging", "backup?", "-backup", "+staging", "unpack", "mark",
            "current?", "aside", "in", "old?", "-old", "done"
        ]
    );
    assert!(fault.is_none());
}

#[test]
fn servers_keep_their_worlds_and_settings() {
    let (words, fault) = run(
        InstallKind::Server,
        &[
            "server?",
            "current?",
            "worlds source?",
            "worlds destination?",
            "worlds directory?",
            "server.properties source?",
            "server.properties destination?",
            "permissions.json source?",
            "old?",
        ],
        &[],
    );
    assert_eq!(
        words,
        [
            "staging?",
            "backup?",
            "+staging",
            "unpack",
            "server?",
            "mark",
            "current?",
            "worlds source?",
            "worlds destination?",
            "worlds directory?",
            "worlds -tree",
            "worlds copy",
            "server.properties source?",
            "server.properties destination?",
            "server.properties directory?",
            "server.properties -file",
            "server.properties copy",
            "allowlist.json source?",
            "permissions.json source?",
            "permissions.json destination?",
            "permissions.json copy",
            "aside",
            "in",
            "old?",
            "-old",
            "done"
        ]
    );
    assert!(fault.is_none());
}

#[test]
fn servers_are_installed_where_none_was() {
    let (words, _) = run(InstallKind::Server, &["server?"], &[]);
    assert_eq!(
        words,
        [
            "staging?", "backup?", "+staging", "unpack", "server?", "mark", "current?", "in",
            "old?", "done"
        ]
    );
}

#[test]
fn archives_without_a_server_are_refused() {
    let (words, fault) = run(InstallKind::Server, &["current?"], &[]);
    assert_eq!(words.last().unwrap(), "failed");
    assert!(!words.contains(&"aside".to_owned()));
    assert_eq!(fault.as_deref(), Some("BDS ZIPにbedrock_server.exeがありません"));
}

#[test]
fn addons_that_cannot_be_unpacked_are_discarded() {
    let (words, fault) = run(InstallKind::Addon, &["discard?"], &["unpack", "discard"]);
    assert_eq!(
        words,
        ["staging?", "backup?", "+staging", "unpack", "discard?", "discard", "failed"]
    );
    assert_eq!(fault.as_deref(), Some("unpack broke"));
    let (words, fault) = run(InstallKind::Server, &["discard?"], &["unpack"]);
    assert_eq!(words, ["staging?", "backup?", "+staging", "unpack", "failed"]);
    assert_eq!(fault.as_deref(), Some("unpack broke"));
}

#[test]
fn trees_that_cannot_be_moved_in_are_rolled_back() {
    for kind in [InstallKind::Addon, InstallKind::Server] {
        let (words, fault) =
            run(kind, &["server?", "current?", "rollback?"], &["in", "rollback"]);
        assert_eq!(&words[words.len() - 5..], ["aside", "in", "rollback?", "rollback", "failed"]);
        assert_eq!(fault.as_deref(), Some("in broke"));
    }
    let (words, fault) = run(InstallKind::Addon, &[], &["in"]);
    assert_eq!(&words[words.len() - 3..], ["in", "rollback?", "failed"]);
    assert_eq!(fault.as_deref(), Some("in broke"));
}

#[test]
fn every_operation_can_fail() {
    let yes = [
        "staging?",
        "backup?",
        "server?",
        "current?",
        "worlds source?",
        "worlds destination?",
        "worlds directory?",
        "server.properties source?",
        "server.properties destination?",
        "old?",
    ];
    for broken in [
        "-staging",
        "-backup",
        "+staging",
        "unpack",
        "mark",
        "worlds -tree",
        "worlds copy",
        "server.properties -file",
        "aside",
        "-old",
    ] {
        let (words, fault) = run(InstallKind::Server, &yes, &[broken]);
        assert_eq!(words[words.len() - 2], broken);
        assert_eq!(fault, Some(format!("{broken} broke")));
    }
}

#[test]
fn trees_stand_beside_each_other() {
    assert_eq!(staging_name("kairo"), ".kairo.staging");
    assert_eq!(backup_name("current"), ".current.backup");
    assert_eq!(Fault::System("denied".to_owned()).message(), "denied");
}

fn replace(exists: bool, broken: &str) -> (Vec<&'static str>, Option<String>) {
    let mut replacement = Replacement::begin();
    let mut words = Vec::new();
    loop {
        let at = match &replacement.stage {
            ReplaceStage::Create => "create",
            ReplaceStage::Encode => "encode",
            ReplaceStage::Write => "write",
            ReplaceStage::Sync => "sync",
            ReplaceStage::Probe => "exists?",
            ReplaceStage::Remove => "remove",
            ReplaceStage::Rename => "rename",
            ReplaceStage::Done => return (words, None),
            ReplaceStage::Failed(detail) => return (words, Some(detail.clone())),
        };
        words.push(at);
        let outcome = if at == broken { Err(format!("{at} broke")) } else { Ok(exists) };
        replacement = replacement.resume(outcome);
    }
}

#[test]
fn files_are_replaced_when_the_new_content_is_complete() {
    let (words, fault) = replace(true, "");
    assert_eq!(words, ["create", "encode", "write", "sync", "exists?", "remove", "rename"]);
    assert!(fault.is_none());
    let (words, fault) = replace(false, "");
    assert_eq!(words, ["create", "encode", "write", "sync", "exists?", "rename"]);
    assert!(fault.is_none());
}

#[test]
fn replacements_can_fail_at_every_operation() {
    for broken in ["create", "encode", "write", "sync", "remove", "rename"] {
        let (words, fault) = replace(true, broken);
        assert_eq!(words.last(), Some(&broken));
        assert_eq!(fault, Some(format!("{broken} broke")));
    }
    let (words, _) = replace(true, "exists?");
    assert_eq!(words.last(), Some(&"rename"));
}

#[test]
fn new_contents_stand_beside_the_old() {
    assert_eq!(temporary_name("world_behavior_packs.json"), "world_behavior_packs.json.tmp");
    for name in ["a.txt", "a", ".hidden", ".a.b", "a.b.c", "a.", "..a.b", "...", "日本.json"] {
        assert!(is_file_name(name));
        let expected = Path::new(name).with_extension("json.tmp");
        assert_eq!(Some(temporary_name(name).as_str()), expected.to_str(), "{name}");
    }
    for name in ["", ".", "..", "..a", "a/b", "/", "a\\b"] {
        assert!(!is_file_name(name));
    }
}

type Tree = BTreeMap<String, String>;

fn tree(entries: &[(&str, &str)]) -> Tree {
    entries.iter().map(|(name, content)| ((*name).to_owned(), (*content).to_owned())).collect()
}

/// Installs what unpacks to `unpacked`, with a note, where `old` was.
fn installed(kind: InstallKind, old: Option<Tree>, unpacked: Tree, note: &str) -> Tree {
    let (mut staging, mut current, mut backup) = (None::<Tree>, old, None::<Tree>);
    let mut installation = Installation::begin(kind);
    loop {
        let outcome = match &installation.stage {
            Stage::ProbeStaging | Stage::DiscardProbe(_) => staging.is_some(),
            Stage::ProbeBackup | Stage::RollbackProbe(_) | Stage::ProbeOld => backup.is_some(),
            Stage::ProbeCurrent => current.is_some(),
            Stage::ClearStaging | Stage::Discard(_) => staging.take().is_some(),
            Stage::ClearBackup | Stage::ClearOld => backup.take().is_some(),
            Stage::CreateStaging => staging.replace(Tree::new()).is_none(),
            Stage::Unpack => staging.replace(unpacked.clone()).is_some(),
            Stage::CheckExecutable => {
                staging.as_ref().unwrap().contains_key("bedrock_server.exe")
            }
            Stage::WriteMarker => {
                staging.as_mut().unwrap().insert(note.to_owned(), "note".to_owned());
                true
            }
            Stage::Preserve(item, step) => {
                let name = preserved_name(*item);
                let (source, target) = (current.as_ref().unwrap(), staging.as_mut().unwrap());
                match step {
                    PreserveStep::Source => source.contains_key(name),
                    PreserveStep::Destination => target.contains_key(name),
                    PreserveStep::Kind => name == "worlds",
                    PreserveStep::RemoveTree | PreserveStep::RemoveFile => {
                        target.remove(name).is_some()
                    }
                    PreserveStep::Copy => {
                        assert!(!target.contains_key(name));
                        target.insert(name.to_owned(), source[name].clone()).is_none()
                    }
                }
            }
            Stage::MoveAside => {
                backup = current.take();
                true
            }
            Stage::MoveIn => {
                current = staging.take();
                true
            }
            Stage::Rollback(_) => unreachable!(),
            Stage::Done => {
                assert!(staging.is_none() && backup.is_none());
                return current.unwrap();
            }
            Stage::Failed(_) => panic!("failed"),
        };
        installation = installation.resume(Ok(outcome));
    }
}

#[test]
fn addons_hold_their_archive_and_the_note() {
    let unpacked = tree(&[("BP", "new"), (".kairo-version.json", "from the archive")]);
    let old = tree(&[("BP", "old"), ("RP", "old")]);
    let expected = tree(&[("BP", "new"), (".kairo-version.json", "note")]);
    for before in [None, Some(old)] {
        let after =
            installed(InstallKind::Addon, before, unpacked.clone(), ".kairo-version.json");
        assert_eq!(after, expected);
    }
}

#[test]
fn servers_hold_their_archive_and_what_outlives() {
    let unpacked = tree(&[
        ("bedrock_server.exe", "new"),
        ("worlds", "new"),
        ("server.properties", "new"),
        ("allowlist.json", "new"),
    ]);
    let old = tree(&[
        ("bedrock_server.exe", "old"),
        ("worlds", "old"),
        ("server.properties", "old"),
        ("permissions.json", "old"),
        ("mods", "old"),
        (".werewolf-bds.json", "old"),
    ]);
    assert_eq!(
        installed(InstallKind::Server, Some(old), unpacked, ".werewolf-bds.json"),
        tree(&[
            ("bedrock_server.exe", "new"),
            ("worlds", "old"),
            ("server.properties", "old"),
            ("allowlist.json", "new"),
            ("permissions.json", "old"),
            (".werewolf-bds.json", "note"),
        ])
    );
}
