use ncd::host::adapter_loader::adapter::{
    adapter_script, list_args, listing_outcome, spawn_args, AdapterError, RawDevice,
};
use ncd::host::adapter_loader::bundle::{
    bundle_dir_path, bundle_fingerprint, check_fingerprint, digest_fingerprint, drivers_dir,
    entry_ops, hash_marker_path, init, python_path, pythonpath, verify_bundle, BundleError,
    EntryOp, InitStep,
};
use ncd::host::adapter_loader::list::{get_all_devices, AdapterItem, AdapterList};
use ncd::host::driver::{driver_script, driver_source, python_args};
use ncd::host::driver_loader::{driver_args, get_drivers};

fn pair(k: &str, v: &str) -> (String, String) {
    (k.to_string(), v.to_string())
}

fn adapter(name: &str, port: u16) -> AdapterItem {
    AdapterItem {
        name: name.to_string(),
        description: String::new(),
        default_port: port,
        path: format!("{name}.py"),
        options: vec![pair("speed", "9")],
    }
}

fn raw(id: &str) -> RawDevice {
    RawDevice { identifier: id.to_string(), name: format!("N{id}"), description: "d".to_string() }
}

#[test]
fn fingerprint_is_the_start_of_sha256() {
    // SHA-256 of "abc" starts with ba7816bf 8f01cfea.
    assert_eq!(bundle_fingerprint(b"abc"), "ba7816bf8f01cfea");
    assert_eq!(bundle_fingerprint(b""), "e3b0c44298fc1c14");
    assert_eq!(digest_fingerprint(&[0xAB; 32]), "abababababababab");
}

#[test]
fn bundle_is_verified() {
    assert!(verify_bundle(b"abc", "ba7816bf8f01cfea").is_ok());
    let err = verify_bundle(b"abd", "ba7816bf8f01cfea").unwrap_err();
    assert!(matches!(&err, BundleError::HashMismatch { expected, .. } if expected == "ba7816bf8f01cfea"));
    assert_eq!(
        check_fingerprint("b".to_string(), "a").unwrap_err().message(),
        "Bundle hash mismatch: expected a, got b. The embedded bundle may be corrupted — rebuild the project."
    );
    assert_eq!(
        BundleError::io("denied".to_string(), "creating dir").message(),
        "Bundle I/O error (denied): creating dir"
    );
}

#[test]
fn bundle_is_unpacked_once() {
    assert_eq!(init(false, Some(" abc\n"), "abc", true), InitStep::Ready);
    assert_eq!(init(false, Some("old"), "abc", true), InitStep::RemoveStale);
    assert_eq!(init(false, None, "abc", true), InitStep::RemoveStale);
    assert_eq!(init(false, None, "abc", false), InitStep::CreateDir);
    assert_eq!(init(true, None, "abc", false), InitStep::Ready);
}

#[test]
fn bundle_steps() {
    let mut steps = vec![];
    let mut step = init(false, None, "abc", true);
    while step != InitStep::Ready {
        steps.push(step);
        step = step.next(2);
    }
    assert_eq!(
        steps,
        vec![
            InitStep::RemoveStale,
            InitStep::CreateDir,
            InitStep::OpenArchive,
            InitStep::Extract { entry: 0, count: 2 },
            InitStep::Extract { entry: 1, count: 2 },
            InitStep::Verify,
            InitStep::WriteMarker,
        ]
    );
    assert_eq!(InitStep::OpenArchive.next(0), InitStep::Verify);
    for step in steps {
        assert_eq!(step.undo_on_failure(), step == InitStep::Verify);
    }
    assert_eq!(
        InitStep::WriteMarker.failure("full".to_string()).message(),
        "Bundle I/O error (full): writing hash marker"
    );
}

#[test]
fn bundle_entries() {
    assert_eq!(entry_ops(true, false), vec![EntryOp::CreateDir]);
    assert_eq!(entry_ops(false, true).len(), 4);
    assert_eq!(
        entry_ops(false, false),
        vec![EntryOp::CreateParent, EntryOp::CreateFile, EntryOp::CopyContents, EntryOp::SetMode]
    );
    assert!(EntryOp::SetMode.failure("x".to_string()).is_none());
    assert_eq!(
        EntryOp::CopyContents.failure("x".to_string()).unwrap().message(),
        "Bundle I/O error (x): extracting file"
    );
}

#[test]
fn bundle_paths() {
    let dir = bundle_dir_path("/tmp", "abc");
    assert_eq!(dir, "/tmp/ncd-abc");
    assert_eq!(bundle_dir_path("/tmp/", "abc"), "/tmp/ncd-abc");
    assert_eq!(hash_marker_path(&dir), "/tmp/ncd-abc/.bundle_hash");
    assert_eq!(drivers_dir(&dir), "/tmp/ncd-abc/adapters");
    assert_eq!(python_path(&dir, false), "/tmp/ncd-abc/python/bin/python3");
    assert_eq!(python_path(&dir, true), "/tmp/ncd-abc/python/bin/python.exe");
    assert_eq!(pythonpath(&dir), "/tmp/ncd-abc/adapters:/tmp/ncd-abc/site-packages");
}

#[test]
fn devices_inherit_from_their_adapter() {
    let list = AdapterList { adapters: vec![adapter("cam", 9000), adapter("bad", 1), adapter("kbd", 11000)] };
    let listings = [Some(vec![raw("a"), raw("b")]), None, Some(vec![raw("k")])];
    let devices = get_all_devices(&list, &listings);
    let shown: Vec<(String, String, u16)> = devices
        .iter()
        .map(|d| (d.adapter_name.clone(), d.identifier.clone(), d.default_port))
        .collect();
    assert_eq!(
        shown,
        vec![
            ("cam".to_string(), "a".to_string(), 9000),
            ("cam".to_string(), "b".to_string(), 9001),
            ("kbd".to_string(), "k".to_string(), 11000),
        ]
    );
    assert_eq!(devices[1].options, vec![pair("speed", "9")]);
    assert_eq!(devices[1].name, "Nb");
}

#[test]
fn adapter_commands() {
    let list = AdapterList { adapters: vec![adapter("cam", 9000)] };
    assert_eq!(adapter_script(&list, "cam", "/a").unwrap(), "/a/cam.py");
    let mut elsewhere = adapter("far", 1);
    elsewhere.path = "/opt/cam.py".to_string();
    let far = AdapterList { adapters: vec![elsewhere] };
    assert_eq!(adapter_script(&far, "far", "/d").unwrap(), "/opt/cam.py");
    assert_eq!(
        adapter_script(&list, "mic", "/a").unwrap_err().message(),
        "Unknown driver: mic"
    );
    assert_eq!(
        spawn_args("/a", "/a/cam.py", "id0", "Cam", &[pair("port", "1"), pair("w", "2")]),
        vec![
            "run", "--project", "/a", "python", "/a/cam.py", "run", "id0", "Cam", "--port", "1",
            "--w", "2"
        ]
    );
    assert_eq!(list_args("/a", "s.py"), vec!["run", "--project", "/a", "python", "s.py", "list"]);
}

#[test]
fn adapter_failures() {
    assert!(listing_outcome("s.py", true, Some(0)).is_ok());
    assert_eq!(
        listing_outcome("s.py", false, Some(2)).unwrap_err().message(),
        "Failed to list devices for adapter 's.py': exit code 2"
    );
    assert_eq!(
        listing_outcome("s.py", false, None).unwrap_err().message(),
        "Failed to list devices for adapter 's.py': exit code -1"
    );
    assert_eq!(AdapterError::Spawn("x".to_string()).message(), "Failed to spawn uv run: x");
    assert_eq!(AdapterError::Io("x".to_string()).message(), "Adapter I/O error: x");
    assert_eq!(AdapterError::Json("x".to_string()).message(), "Failed to parse device JSON: x");
}

#[test]
fn known_drivers() {
    let drivers = get_drivers();
    let keyboard = drivers.query_driver("keyboard").unwrap();
    assert_eq!(keyboard.default_port, 8081);
    assert_eq!(keyboard.driver_path, "keyboard.py");
    assert!(drivers.query_driver("mouse").is_none());
    assert_eq!(
        driver_args(&drivers, "keyboard", "/d", &[pair("k", "v")]).unwrap(),
        vec!["run", "--project", "/d", "python", "/d/keyboard.py", "--k", "v"]
    );
    assert_eq!(
        driver_args(&drivers, "mouse", "/d", &[]).unwrap_err().message(),
        "Unknown driver: mouse"
    );
}

#[test]
fn driver_scripts() {
    let embedded = [pair("serial", "import serial"), pair("keyboard", "import tty")];
    assert_eq!(driver_source(&embedded, "keyboard").unwrap(), "import tty");
    assert_eq!(
        driver_source(&embedded, "mouse").unwrap_err().message(),
        "Unknown driver: mouse"
    );
    assert_eq!(driver_script("/tmp/x", "serial"), "/tmp/x/serial.py");
    assert_eq!(python_args("/s.py", &[pair("baud", "9600")]), vec!["/s.py", "--baud", "9600"]);
}
