use std::io::{Cursor, Write};

use werewolf_launcher::archive::{
    check_entry, plan_extraction, EntryHeader, Extraction, ExtractionRules,
};
use zip::write::SimpleFileOptions;
use zip::{CompressionMethod, ZipArchive, ZipWriter};

fn options() -> SimpleFileOptions {
    SimpleFileOptions::default().compression_method(CompressionMethod::Stored)
}

fn archive(files: &[(&str, &[u8])]) -> Vec<u8> {
    let mut writer = ZipWriter::new(Cursor::new(Vec::new()));
    for (name, content) in files {
        if name.ends_with('/') {
            writer.add_directory(*name, options()).unwrap();
        } else {
            writer.start_file(*name, options()).unwrap();
            writer.write_all(content).unwrap();
        }
    }
    writer.finish().unwrap().into_inner()
}

fn names(plan: &Extraction) -> Vec<&str> {
    plan.planned.iter().map(|entry| entry.name.as_str()).collect()
}

#[test]
fn plans_every_entry_in_order() {
    let bytes = archive(&[("BP/", b""), ("BP/pack.txt", b"{}"), ("日本.txt", b"12345")]);
    for rules in [ExtractionRules::for_addon(), ExtractionRules::for_server()] {
        let plan = plan_extraction(&bytes, &rules);
        assert_eq!(names(&plan), vec!["BP/", "BP/pack.txt", "日本.txt"]);
        assert!(plan.planned[0].is_dir);
        assert!(!plan.planned[1].is_dir);
        assert_eq!(plan.planned[2].index, 2);
        assert_eq!(plan.expanded, 7);
        assert!(plan.failure.is_none());
    }
}

#[test]
fn compressed_entries_count_with_their_expanded_size() {
    let mut writer = ZipWriter::new(Cursor::new(Vec::new()));
    writer
        .start_file("zeros", options().compression_method(CompressionMethod::Deflated))
        .unwrap();
    writer.write_all(&vec![0; 100_000]).unwrap();
    let bytes = writer.finish().unwrap().into_inner();
    assert!(bytes.len() < 10_000);
    assert_eq!(plan_extraction(&bytes, &ExtractionRules::for_addon()).expanded, 100_000);
}

#[test]
fn empty_archives_hold_nothing() {
    let plan = plan_extraction(&archive(&[]), &ExtractionRules::for_addon());
    assert!(plan.planned.is_empty());
    assert!(plan.failure.is_none());
}

#[test]
fn refuses_paths_that_lead_outside() {
    for name in ["../escape", "/etc/passwd", "a/../../escape"] {
        let bytes = archive(&[("kept", b"1"), (name, b"2"), ("after", b"3")]);
        for rules in [ExtractionRules::for_addon(), ExtractionRules::for_server()] {
            let plan = plan_extraction(&bytes, &rules);
            assert_eq!(names(&plan), vec!["kept"]);
            assert_eq!(plan.failure.as_deref(), Some("ZIP contains an unsafe path"));
        }
    }
}

#[test]
fn accepts_paths_that_come_back_inside() {
    let listed = ["a/../b", "./c", "d//e", "..f/g", "h/i/../../j", "k/.", "lm:n", "o\\p"];
    let files: Vec<(&str, &[u8])> = listed.iter().map(|name| (*name, &b"1"[..])).collect();
    let bytes = archive(&files);
    let plan = plan_extraction(&bytes, &ExtractionRules::for_addon());
    assert_eq!(names(&plan), listed.to_vec());
    for name in ["..", "a/b/../../../c", "./..", "a/../../a", "a/../../b:c", "/a:b"] {
        let plan = plan_extraction(&archive(&[(name, b"1")]), &ExtractionRules::for_addon());
        assert!(plan.planned.is_empty());
        assert_eq!(plan.failure.as_deref(), Some("ZIP contains an unsafe path"));
    }
}

#[test]
fn refuses_links_in_addons_only() {
    let mut writer = ZipWriter::new(Cursor::new(Vec::new()));
    writer.add_symlink("link", "target", options()).unwrap();
    let bytes = writer.finish().unwrap().into_inner();
    let plan = plan_extraction(&bytes, &ExtractionRules::for_addon());
    assert!(plan.planned.is_empty());
    assert_eq!(plan.failure.as_deref(), Some("ZIP symlinks are not allowed"));
    let plan = plan_extraction(&bytes, &ExtractionRules::for_server());
    assert_eq!(names(&plan), vec!["link"]);
    assert!(plan.failure.is_none());
}

#[test]
fn stops_at_the_limit() {
    let bytes = archive(&[("a", b"123"), ("b", b"45"), ("c", b"6")]);
    let mut rules = ExtractionRules::for_addon();
    rules.limit = 5;
    let plan = plan_extraction(&bytes, &rules);
    assert_eq!(names(&plan), vec!["a", "b"]);
    assert_eq!(plan.expanded, 5);
    assert_eq!(plan.failure.as_deref(), Some("ZIP expands beyond 1 GiB"));
    let mut rules = ExtractionRules::for_server();
    rules.limit = 4;
    let plan = plan_extraction(&bytes, &rules);
    assert_eq!(names(&plan), vec!["a"]);
    assert_eq!(plan.failure.as_deref(), Some("ZIP is too large"));
}

#[test]
fn limits_are_one_and_two_gibibytes() {
    assert_eq!(ExtractionRules::for_addon().limit, 1024 * 1024 * 1024);
    assert_eq!(ExtractionRules::for_server().limit, 2 * 1024 * 1024 * 1024);
}

fn header(size: u64) -> EntryHeader {
    EntryHeader {
        name: "x".to_owned(),
        enclosed: true,
        is_dir: false,
        size,
        unix_mode: Some(0o100644),
    }
}

#[test]
fn sizes_are_added_without_overflow() {
    let mut rules = ExtractionRules::for_server();
    rules.limit = u64::MAX;
    assert_eq!(check_entry(&header(1), u64::MAX - 1, &rules).unwrap(), u64::MAX);
    assert_eq!(check_entry(&header(2), u64::MAX - 1, &rules).unwrap_err(), "ZIP size overflow");
    assert_eq!(
        check_entry(&header(2), 2 * 1024 * 1024 * 1024 - 2, &ExtractionRules::for_server()),
        Ok(2 * 1024 * 1024 * 1024)
    );
}

#[test]
fn what_is_wrong_first_is_said() {
    let rules = ExtractionRules::for_addon();
    let mut entry = header(u64::MAX);
    entry.enclosed = false;
    entry.unix_mode = Some(0o120777);
    assert_eq!(check_entry(&entry, 1, &rules).unwrap_err(), "ZIP contains an unsafe path");
    entry.enclosed = true;
    assert_eq!(check_entry(&entry, 1, &rules).unwrap_err(), "ZIP symlinks are not allowed");
    entry.unix_mode = None;
    assert_eq!(check_entry(&entry, 1, &rules).unwrap_err(), "ZIP size overflow");
    assert_eq!(check_entry(&entry, 0, &rules).unwrap_err(), "ZIP expands beyond 1 GiB");
}

#[test]
fn says_why_an_archive_cannot_be_opened() {
    let bytes = b"no archive";
    let expected = ZipArchive::new(Cursor::new(&bytes[..])).unwrap_err().to_string();
    let plan = plan_extraction(bytes, &ExtractionRules::for_addon());
    assert!(plan.planned.is_empty());
    assert_eq!(plan.expanded, 0);
    assert_eq!(plan.failure, Some(expected));
}

#[test]
fn says_why_an_entry_cannot_be_opened() {
    let mut bytes = archive(&[("a", b"1"), ("b", b"2")]);
    let central = bytes.windows(4).rposition(|word| word == [b'P', b'K', 1, 2]).unwrap();
    bytes[central + 10] = 97;
    let mut reader = ZipArchive::new(Cursor::new(&bytes[..])).unwrap();
    let expected = match reader.by_index(1) {
        Ok(_) => panic!("opened"),
        Err(error) => error.to_string(),
    };
    let plan = plan_extraction(&bytes, &ExtractionRules::for_addon());
    assert_eq!(names(&plan), vec!["a"]);
    assert_eq!(plan.failure, Some(expected));
}

#[test]
fn entries_can_be_taken_in_one_by_one() {
    let rules = ExtractionRules::for_addon();
    let mut plan = Extraction::new();
    plan.take_in(Ok(header(3)), &rules);
    plan.take_in(Err("unreadable".to_owned()), &rules);
    plan.take_in(Ok(header(4)), &rules);
    assert_eq!(plan.planned.len(), 1);
    assert_eq!(plan.expanded, 3);
    assert_eq!(plan.failure.as_deref(), Some("unreadable"));
}
