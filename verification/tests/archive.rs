use std::io::{Cursor, Write};

use ncd::host::adapter_loader::archive::{
    link_target, plan_work, Archive, ArchiveEntry, EntryWork,
};
use ncd::host::adapter_loader::bundle::{join_path, EntryOp};
use zip::write::SimpleFileOptions;
use zip::{CompressionMethod, ZipWriter};

/// An archive with a directory, a program, a link and a file outside.
fn sample() -> Vec<u8> {
    let stored = SimpleFileOptions::default().compression_method(CompressionMethod::Stored);
    let deflated = SimpleFileOptions::default().compression_method(CompressionMethod::Deflated);
    let mut writer = ZipWriter::new(Cursor::new(Vec::new()));
    writer.add_directory("python/", stored).unwrap();
    writer.start_file("python/bin/run", deflated.unix_permissions(0o755)).unwrap();
    writer.write_all(&[7; 5000]).unwrap();
    writer.add_symlink("python/link", " bin/run\n", stored).unwrap();
    writer.start_file("note.txt", stored.unix_permissions(0o644)).unwrap();
    writer.write_all(b"remember the milk").unwrap();
    writer.finish().unwrap().into_inner()
}

fn plans(data: &[u8], dir: &str) -> Vec<EntryWork> {
    let mut archive = Archive::open(data).unwrap();
    let mut works = Vec::new();
    for i in 0..archive.count() {
        works.push(archive.plan_entry(i, dir).unwrap());
    }
    works
}

fn entry(name: &str, is_dir: bool, is_symlink: bool, contents: &[u8]) -> ArchiveEntry {
    ArchiveEntry {
        name: name.to_string(),
        is_dir,
        is_symlink,
        mode: None,
        contents: Ok(contents.to_vec()),
    }
}

#[test]
fn every_entry_has_a_plan() {
    let data = sample();
    let works = plans(&data, "/tmp/ncd-1");
    let paths: Vec<&str> = works.iter().map(|w| w.path.as_str()).collect();
    assert_eq!(
        paths,
        vec![
            "/tmp/ncd-1/python/",
            "/tmp/ncd-1/python/bin/run",
            "/tmp/ncd-1/python/link",
            "/tmp/ncd-1/note.txt",
        ]
    );
    assert_eq!(works[0].ops, vec![EntryOp::CreateDir]);
    assert!(works[0].entry.is_dir && works[0].target.is_none());

    assert_eq!(
        works[1].ops,
        vec![EntryOp::CreateParent, EntryOp::CreateFile, EntryOp::CopyContents, EntryOp::SetMode]
    );
    assert_eq!(works[1].entry.contents, Ok(vec![7; 5000]));
    assert_eq!(works[1].entry.mode.unwrap() & 0o777, 0o755);
    assert!(!works[1].entry.is_dir && !works[1].entry.is_symlink);

    assert_eq!(
        works[2].ops,
        vec![EntryOp::ReadTarget, EntryOp::CreateParent, EntryOp::RemoveOld, EntryOp::CreateSymlink]
    );
    assert!(works[2].entry.is_symlink);
    assert_eq!(works[2].target, Some(Ok("bin/run".to_string())));

    assert_eq!(works[3].entry.contents, Ok(b"remember the milk".to_vec()));
    assert_eq!(works[3].entry.mode.unwrap() & 0o777, 0o644);
    for work in &works {
        for &op in &work.ops {
            assert!(work.check(op).is_ok());
        }
    }
}

#[test]
fn entries_can_be_read_in_any_order() {
    let data = sample();
    let mut archive = Archive::open(&data).unwrap();
    assert_eq!(archive.count(), 4);
    for i in [3usize, 1, 3, 0] {
        let again = archive.plan_entry(i, "d").unwrap();
        assert_eq!(again.path, plans(&data, "d")[i].path);
        assert_eq!(again.entry.contents, plans(&data, "d")[i].entry.contents);
    }
}

#[test]
fn what_is_no_archive_is_refused() {
    let err = match Archive::open(b"no archive") {
        Ok(_) => panic!("opened"),
        Err(e) => e.message(),
    };
    assert!(err.starts_with("Bundle I/O error ("));
    assert!(err.ends_with("): opening bundle zip"));
}

#[test]
fn an_entry_that_is_not_there() {
    let data = sample();
    let err = Archive::open(&data).unwrap().plan_entry(4, "d").unwrap_err().message();
    assert!(err.starts_with("Bundle I/O error ("));
    assert!(err.ends_with("): reading zip entry"));
}

#[test]
fn spoilt_contents_are_noticed() {
    let mut data = sample();
    let at = data.windows(8).position(|w| w == b"remember").unwrap();
    data[at] = b'R';
    let works = plans(&data, "d");
    let work = &works[3];
    assert!(work.entry.contents.is_err());
    assert!(work.check(EntryOp::CreateFile).is_ok());
    assert_eq!(
        work.check(EntryOp::CopyContents).unwrap_err().message(),
        "Bundle I/O error (Invalid checksum): extracting file"
    );
    let at = data.windows(7).position(|w| w == b"bin/run" ).unwrap();
    let second = at + 7 + data[at + 7..].windows(7).position(|w| w == b"bin/run").unwrap();
    data[second] = b'B';
    let works = plans(&data, "d");
    assert_eq!(
        works[2].check(EntryOp::ReadTarget).unwrap_err().message(),
        "Bundle I/O error (Invalid checksum): reading symlink"
    );
}

#[test]
fn links_lead_to_trimmed_text() {
    assert_eq!(link_target(&Ok(b"\t a b \n".to_vec())), Ok("a b".to_string()));
    assert_eq!(link_target(&Ok("\u{e9}".as_bytes().to_vec())), Ok("\u{e9}".to_string()));
    assert_eq!(
        link_target(&Ok(vec![0xFF])),
        Err("stream did not contain valid UTF-8".to_string())
    );
    assert_eq!(link_target(&Err("gone".to_string())), Err("gone".to_string()));
    let work = plan_work(entry("l", false, true, &[0xFF]), "d");
    assert_eq!(
        work.check(EntryOp::ReadTarget).unwrap_err().message(),
        "Bundle I/O error (stream did not contain valid UTF-8): reading symlink"
    );
}

#[test]
fn kinds_of_entries() {
    let work = plan_work(entry("x", true, true, b"t"), "/d/");
    assert_eq!(work.path, "/d/x");
    assert_eq!(work.ops, vec![EntryOp::CreateDir]);
    assert!(work.target.is_none());
    let work = plan_work(entry("x", false, false, b"t"), "/d");
    assert!(work.target.is_none());
    assert_eq!(work.ops.len(), 4);
}

#[test]
fn names_at_the_root_stand_alone() {
    assert_eq!(plan_work(entry("/etc/x", false, false, b""), "/d").path, "/etc/x");
    assert_eq!(join_path("/d", "/opt/cam.py"), "/opt/cam.py");
    assert_eq!(join_path("/d", "opt/cam.py"), "/d/opt/cam.py");
    assert_eq!(join_path("", "x"), "x");
}

#[test]
fn different_names_go_to_different_places() {
    let a = plan_work(entry("a/b", false, false, b""), "/d").path;
    let b = plan_work(entry("a/c", false, false, b""), "/d").path;
    assert_ne!(a, b);
    assert!(a.starts_with("/d"));
}
