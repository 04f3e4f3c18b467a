use werewolf_launcher::packs::{
    begin_packs, list_name, source_name, target_name, PackHeader, PackKind, PackStep, WorldPack,
};

fn header(uuid: &str, version: &[u32]) -> PackHeader {
    PackHeader { uuid: uuid.to_owned(), version: version.to_vec() }
}

#[test]
fn packs_have_an_id_and_three_numbers() {
    assert!(header("8f1c", &[1, 0, 0]).is_valid());
    assert!(header(" x ", &[0, 0, 0]).is_valid());
    assert!(!header("", &[1, 0, 0]).is_valid());
    assert!(!header(" \t\u{3000}", &[1, 0, 0]).is_valid());
    assert!(!header("8f1c", &[1, 0]).is_valid());
    assert!(!header("8f1c", &[1, 0, 0, 0]).is_valid());
}

#[test]
fn packs_have_their_places() {
    assert_eq!(source_name(&PackKind::Behavior), "BP");
    assert_eq!(source_name(&PackKind::Resource), "RP");
    assert_eq!(target_name(&PackKind::Behavior), "behavior_packs");
    assert_eq!(target_name(&PackKind::Resource), "resource_packs");
    assert_eq!(list_name(&PackKind::Behavior), "world_behavior_packs.json");
    assert_eq!(list_name(&PackKind::Resource), "world_resource_packs.json");
}

fn described(packs: &[WorldPack]) -> String {
    packs
        .iter()
        .map(|pack| format!("{} {:?}", pack.pack_id, pack.version))
        .collect::<Vec<_>>()
        .join("; ")
}

/// Applies the addons `a`, `b` and `c`. The packs named in `there` are there, those in
/// `placed` replace another, and operations fail where they are named `broken`.
fn apply(there: &[&str], placed: &[&str], broken: &str) -> (Vec<String>, PackStep) {
    let mut words = Vec::new();
    let mut step =
        begin_packs(vec!["a".to_owned(), "b".to_owned(), "c".to_owned()]);
    loop {
        let outcome = |at: &str| {
            if at == broken { Err(format!("{at} broke")) } else { Ok(()) }
        };
        step = match step {
            PackStep::Inspect(inspect) => {
                let name = format!(
                    "{}/{}",
                    inspect.progress.addon_id(),
                    source_name(&inspect.progress.kind)
                );
                inspect.resume(there.contains(&name.as_str()))
            }
            PackStep::ReadManifest(read) => {
                let name = format!(
                    "{}/{}",
                    read.progress.addon_id(),
                    source_name(&read.progress.kind)
                );
                words.push(format!("read {name}"));
                match outcome(&format!("read {name}")) {
                    Ok(()) => read.resume(Ok(header(&name, &[1, 2, 3]))),
                    Err(detail) => read.resume(Err(detail)),
                }
            }
            PackStep::CheckTarget(check) => {
                let found = placed.contains(&check.header.uuid.as_str());
                check.resume(found)
            }
            PackStep::RemoveTarget(remove) => {
                let at = format!("remove {}", remove.header.uuid);
                words.push(at.clone());
                remove.resume(outcome(&at))
            }
            PackStep::Copy(copy) => {
                let at = format!("copy {}", copy.header.uuid);
                words.push(at.clone());
                copy.resume(outcome(&at))
            }
            PackStep::CreateWorld(create) => {
                words.push("world".to_owned());
                create.resume(outcome("world"))
            }
            PackStep::WriteBehavior(write) => {
                words.push(format!("behavior {}", described(&write.progress.behavior)));
                write.resume(outcome("behavior"))
            }
            PackStep::WriteResources(write) => {
                words.push(format!("resources {}", described(&write.progress.resources)));
                write.resume(outcome("resources"))
            }
            step => return (words, step),
        };
    }
}

#[test]
fn lists_the_packs_that_are_there_in_order() {
    let (words, step) = apply(&["a/BP", "b/RP", "c/BP", "c/RP"], &["b/RP"], "");
    assert_eq!(
        words,
        [
            "read a/BP",
            "copy a/BP",
            "read b/RP",
            "remove b/RP",
            "copy b/RP",
            "read c/BP",
            "copy c/BP",
            "read c/RP",
            "copy c/RP",
            "world",
            "behavior a/BP [1, 2, 3]; c/BP [1, 2, 3]",
            "resources b/RP [1, 2, 3]; c/RP [1, 2, 3]"
        ]
    );
    assert!(matches!(step, PackStep::Finished(2, 2)));
    let (words, step) = apply(&["b/BP"], &[], "");
    assert_eq!(
        words,
        ["read b/BP", "copy b/BP", "world", "behavior b/BP [1, 2, 3]", "resources "]
    );
    assert!(matches!(step, PackStep::Finished(1, 0)));
}

#[test]
fn no_addons_leave_empty_lists() {
    match begin_packs(Vec::new()) {
        PackStep::CreateWorld(create) => match create.resume(Ok(())) {
            PackStep::WriteBehavior(write) => {
                assert!(write.progress.behavior.is_empty());
                match write.resume(Ok(())) {
                    PackStep::WriteResources(write) => {
                        assert!(matches!(write.resume(Ok(())), PackStep::Finished(0, 0)));
                    }
                    _ => panic!("not written"),
                }
            }
            _ => panic!("not created"),
        },
        _ => panic!("not begun"),
    }
}

#[test]
fn every_operation_on_packs_can_fail() {
    for broken in [
        "read a/BP", "remove a/BP", "copy a/BP", "copy c/RP", "world", "behavior", "resources",
    ] {
        let (words, step) = apply(&["a/BP", "c/RP"], &["a/BP"], broken);
        assert!(words.last().unwrap().starts_with(broken));
        match step {
            PackStep::Failed(message) => assert_eq!(message, format!("{broken} broke")),
            _ => panic!("not failed"),
        }
    }
}

#[test]
fn invalid_headers_stop_the_application() {
    let read = match begin_packs(vec!["a".to_owned()]) {
        PackStep::Inspect(inspect) => match inspect.resume(true) {
            PackStep::ReadManifest(read) => read,
            _ => panic!("not read"),
        },
        _ => panic!("not begun"),
    };
    match read.resume(Ok(header("id", &[1]))) {
        PackStep::Failed(message) => assert_eq!(message, "pack manifest header is invalid"),
        _ => panic!("not failed"),
    }
}
