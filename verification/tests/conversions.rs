use std::io::Read;

use pythonbuild::convert::{
    full_archive_entries, install_only_archive, stripped_archive, stripped_plan, ConvertError,
};
use pythonbuild::install_only::InstallOnlyFilter;
use pythonbuild::stripped::{entry_strip_action, file_name_of, StripAction};

fn tar_of(entries: &[(&str, &[u8])]) -> Vec<u8> {
    let mut builder = tar::Builder::new(Vec::new());
    for (path, data) in entries {
        let mut header = tar::Header::new_gnu();
        header.set_path(path).unwrap();
        header.set_size(data.len() as u64);
        header.set_mode(0o644);
        header.set_cksum();
        builder.append(&header, *data).unwrap();
    }
    builder.into_inner().unwrap()
}

fn entries_of_tar_gz(data: &[u8]) -> Vec<(String, Vec<u8>, u64)> {
    let mut archive = tar::Archive::new(flate2::read::GzDecoder::new(data));
    let mut out = vec![];
    for entry in archive.entries().unwrap() {
        let mut entry = entry.unwrap();
        let path = String::from_utf8(entry.path_bytes().into_owned()).unwrap();
        let size = entry.header().size().unwrap();
        let mut body = vec![];
        entry.read_to_end(&mut body).unwrap();
        out.push((path, body, size));
    }
    out
}

fn filter() -> InstallOnlyFilter {
    InstallOnlyFilter::new("install/lib/python3.12", &vec!["test".to_string()], &vec![])
}

fn elf64() -> Vec<u8> {
    let mut d = vec![0x7f, b'E', b'L', b'F', 2, 1, 1, 0];
    d.resize(64, 0);
    d
}

#[test]
fn install_only_archive_keeps_the_install_tree_under_python() {
    let tar = tar_of(&[
        ("python/PYTHON.json", b"{}"),
        ("python/install/lib/python3.12/os.py", b"import sys\n"),
        ("python/install/lib/python3.12/test/test_os.py", b"pass\n"),
        ("python/install/lib/libpython3.12.a", b"!<arch>\n"),
        ("python/build/Makefile", b"all:\n"),
        ("python/install/bin/python3", b"#!"),
    ]);
    let archive = zstd::stream::encode_all(tar.as_slice(), 3).unwrap();
    let entries = full_archive_entries(&archive).unwrap();
    assert_eq!(entries.len(), 6);
    assert_eq!(entries[0].path, b"python/PYTHON.json".to_vec());
    assert_eq!(entries[0].data, b"{}".to_vec());
    let out = install_only_archive(&entries, &filter()).unwrap();
    let got = entries_of_tar_gz(&out);
    let paths: Vec<&str> = got.iter().map(|(p, _, _)| p.as_str()).collect();
    assert_eq!(paths, vec!["python/lib/python3.12/os.py", "python/bin/python3"]);
    assert_eq!(got[0].1, b"import sys\n".to_vec());
}

#[test]
fn full_archive_errors() {
    assert_eq!(full_archive_entries(b"not zstd at all").err(), Some(ConvertError::Decompress));
    let empty = zstd::stream::encode_all(&[][..], 3).unwrap();
    assert_eq!(full_archive_entries(&empty).err(), Some(ConvertError::Empty));
    let tar = tar_of(&[("python/install/bin/python3", b"#!"), ("python/PYTHON.json", b"{}")]);
    let archive = zstd::stream::encode_all(tar.as_slice(), 3).unwrap();
    assert_eq!(full_archive_entries(&archive).err(), Some(ConvertError::NoBuildMetadata));
    assert_eq!(ConvertError::NoBuildMetadata.message(), "first archive entry not PYTHON.json");
    assert_eq!(ConvertError::Empty.message(), "tar must have content");
}

#[test]
fn stripping_plan_and_result() {
    let elf = elf64();
    let tar = tar_of(&[
        ("python/bin/python3", elf.as_slice()),
        ("python/lib/vcruntime140.dll", elf.as_slice()),
        ("python/lib/os.py", b"import sys\n"),
    ]);
    let mut gz = flate2::write::GzEncoder::new(Vec::new(), flate2::Compression::default());
    std::io::Write::write_all(&mut gz, &tar).unwrap();
    let archive = gz.finish().unwrap();
    let (entries, actions) = stripped_plan(&archive).unwrap();
    assert_eq!(actions, vec![StripAction::Strip, StripAction::Keep, StripAction::Keep]);
    let stripped = vec![Some(b"small".to_vec()), None, None];
    let out = stripped_archive(&entries, &actions, &stripped).unwrap();
    let got = entries_of_tar_gz(&out);
    assert_eq!(got.len(), 3);
    assert_eq!(got[0], ("python/bin/python3".to_string(), b"small".to_vec(), 5));
    assert_eq!(got[1].1, elf);
    assert_eq!(got[2].1, b"import sys\n".to_vec());
    assert_eq!(stripped_plan(b"plain bytes").err(), Some(ConvertError::Decompress));
}

#[test]
fn strip_action_reads_the_file_name_of_the_path() {
    let elf = elf64();
    assert_eq!(entry_strip_action(&elf, b"lib/tcl86t.dll"), StripAction::Keep);
    assert_eq!(entry_strip_action(&elf, b"lib/tcl86t.dll/"), StripAction::Keep);
    assert_eq!(entry_strip_action(&elf, b"lib/xtcl86t.dll"), StripAction::Strip);
    assert_eq!(entry_strip_action(b"text", b"lib/tcl86t.dll"), StripAction::Keep);
}

#[test]
fn file_names_of_archive_paths() {
    assert_eq!(file_name_of(b"python/lib/os.py"), Some(b"os.py".to_vec()));
    assert_eq!(file_name_of(b"python/lib/"), Some(b"lib".to_vec()));
    assert_eq!(file_name_of(b"python/lib/./"), Some(b"lib".to_vec()));
    assert_eq!(file_name_of(b"os.py"), Some(b"os.py".to_vec()));
    assert_eq!(file_name_of(b"python/.."), None);
    assert_eq!(file_name_of(b"."), None);
    assert_eq!(file_name_of(b"/"), None);
    assert_eq!(file_name_of(b""), None);
    for p in ["a/b", "a/b/", "a/./b/.", "a/..b", "./a", "a//b"] {
        let expected = std::path::Path::new(p).file_name().map(|n| n.to_str().unwrap().as_bytes().to_vec());
        assert_eq!(file_name_of(p.as_bytes()), expected, "{p}");
    }
}
