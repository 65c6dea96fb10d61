use pythonbuild::install_only::{install_only_entry_path, is_build_metadata, InstallOnlyFilter};
use pythonbuild::stripped::{entry_strip_action, StripAction};

fn filter() -> InstallOnlyFilter {
    InstallOnlyFilter::new(
        "install/lib/python3.12",
        &vec!["test".to_string(), "idlelib.idle_test".to_string()],
        &vec![
            (
                "_testcapi".to_string(),
                vec![Some("install/lib/python3.12/lib-dynload/_testcapi.so".to_string()), None],
            ),
            (
                "_ssl".to_string(),
                vec![Some("install/lib/python3.12/lib-dynload/_ssl.so".to_string())],
            ),
        ],
    )
}

#[test]
fn install_only_keeps_the_install_tree() {
    let f = filter();
    assert!(f.keeps(b"python/install/bin/python3"));
    assert!(f.keeps(b"python/install/lib/python3.12/os.py"));
    assert!(f.keeps(b"python/install/lib/python3.12/lib-dynload/_ssl.so"));
}

#[test]
fn install_only_drops_entries_outside_the_install_tree() {
    let f = filter();
    assert!(!f.keeps(b"python/PYTHON.json"));
    assert!(!f.keeps(b"python/build/lib/libpython3.12.a"));
    assert!(!f.keeps(b"python/install"));
}

#[test]
fn install_only_drops_static_libpython() {
    let f = filter();
    assert!(!f.keeps(b"python/install/lib/libpython3.12.a"));
    assert!(f.keeps(b"python/install/lib/libpython3.12.so"));
    assert!(f.keeps(b"python/install/lib/other.a"));
}

#[test]
fn install_only_drops_test_packages() {
    let f = filter();
    assert!(!f.keeps(b"python/install/lib/python3.12/test/test_os.py"));
    assert!(!f.keeps(b"python/install/lib/python3.12/idlelib/idle_test/x.py"));
    assert!(f.keeps(b"python/install/lib/python3.12/idlelib/editor.py"));
    assert!(f.keeps(b"python/install/lib/python3.12/testing.py"));
}

#[test]
fn install_only_drops_test_extension_modules() {
    let f = filter();
    assert!(!f.keeps(b"python/install/lib/python3.12/lib-dynload/_testcapi.so"));
}

#[test]
fn build_metadata_entry() {
    assert!(is_build_metadata(b"python/PYTHON.json"));
    assert!(!is_build_metadata(b"python/PYTHON.jso"));
    assert!(!is_build_metadata(b"python/install/PYTHON.json"));
}

fn elf64() -> Vec<u8> {
    let mut data = vec![0x7f, b'E', b'L', b'F', 2, 1, 1, 0];
    data.resize(64, 0);
    data
}

#[test]
fn strip_binaries() {
    assert_eq!(entry_strip_action(&elf64(), b"python/lib/libpython3.12.so"), StripAction::Strip);
    assert_eq!(entry_strip_action(&elf64(), b"python/.."), StripAction::Strip);
}

#[test]
fn keep_exempt_dlls() {
    assert_eq!(entry_strip_action(&elf64(), b"python/lib/vcruntime140.dll"), StripAction::Keep);
    assert_eq!(entry_strip_action(&elf64(), b"python/lib/tcl90.dll"), StripAction::Keep);
}

#[test]
fn keep_other_files() {
    assert_eq!(entry_strip_action(b"print('hello')\n", b"python/lib/hello.py"), StripAction::Keep);
    assert_eq!(entry_strip_action(b"", b"python/lib/empty.pdb"), StripAction::Keep);
}

fn pdb_header() -> Vec<u8> {
    let mut data = b"Microsoft C/C++ MSF 7.00\r\n\x1a\x44\x53\x00\x00\x00".to_vec();
    for field in [4096u32, 0, 1, 0, 0] {
        data.extend_from_slice(&field.to_le_bytes());
    }
    data.resize(4096, 0);
    data
}

#[test]
fn drop_pdb_files() {
    assert_eq!(entry_strip_action(&pdb_header(), b"python/lib/python312.pdb"), StripAction::Drop);
    assert_eq!(entry_strip_action(&pdb_header(), b"python/lib/whatever.bin"), StripAction::Drop);
}

#[test]
fn kept_entries_move_from_install_to_the_top_directory() {
    assert_eq!(install_only_entry_path(b"python/install/lib/python3.12/os.py"), b"python/lib/python3.12/os.py".to_vec());
    assert_eq!(install_only_entry_path(b"python/install/bin"), b"python/bin".to_vec());
    assert_eq!(install_only_entry_path(b"python/install/"), b"python/".to_vec());
}
