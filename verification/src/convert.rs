//! The two archive conversions: a full build archive (`.tar.zst`) into its
//! install-only archive (`.tar.gz`), and an install-only archive into its
//! stripped form. Running `llvm-strip` is the caller's work: the stripping
//! conversion is a plan (what to do with each entry) and the assembly of the
//! result from the stripped data the caller hands back.

use vstd::prelude::*;
use crate::archive::{
    blocks_view, build_tar_gz, entries_view, gzip_decompress, gzip_decompressed, header_with_path,
    header_with_size, headers_are_blocks, set_header_path, set_header_size, tar_entries, tar_entries_of,
    tar_gz_of, zstd_decompress, zstd_decompressed, TarEntry,
};
use crate::install_only::{ascii, install_only_entry_path, install_only_keeps, is_build_metadata, slice_to_bytes, InstallOnlyFilter};
use crate::stripped::{entry_strip_action, is_strippable_kind, object_file_kind, path_strip_action, StripAction};

verus! {

/// Why a conversion produced no archive.
#[derive(Debug, Clone, Copy, PartialEq, Eq)]
pub enum ConvertError {
    /// The input does not decompress.
    Decompress,
    /// The decompressed input is not a tar archive.
    NotTar,
    /// The archive holds no entry.
    Empty,
    /// The first entry of a full build archive is not `python/PYTHON.json`.
    NoBuildMetadata,
    /// A kept entry's new path cannot be written into its header.
    PathNotSettable,
    /// Writing the output archive failed.
    Encode,
}

/// What a conversion error reads as.
pub open spec fn convert_error_text(e: ConvertError) -> Seq<char> {
    match e {
        ConvertError::Decompress => "archive does not decompress"@,
        ConvertError::NotTar => "archive is not a valid tar archive"@,
        ConvertError::Empty => "tar must have content"@,
        ConvertError::NoBuildMetadata => "first archive entry not PYTHON.json"@,
        ConvertError::PathNotSettable => "path of an install-only entry cannot be set in its tar header"@,
        ConvertError::Encode => "failed to write the output archive"@,
    }
}

impl ConvertError {
    /// The error as text, for people.
    pub fn message(&self) -> (m: String)
        ensures
            m@ == convert_error_text(*self),
    {
        match self {
            ConvertError::Decompress => String::from_str("archive does not decompress"),
            ConvertError::NotTar => String::from_str("archive is not a valid tar archive"),
            ConvertError::Empty => String::from_str("tar must have content"),
            ConvertError::NoBuildMetadata => String::from_str("first archive entry not PYTHON.json"),
            ConvertError::PathNotSettable => String::from_str(
                "path of an install-only entry cannot be set in its tar header",
            ),
            ConvertError::Encode => String::from_str("failed to write the output archive"),
        }
    }
}

pub open spec fn result_entries_view(r: Result<Vec<TarEntry>, ConvertError>) -> Result<
    Seq<(Seq<u8>, Seq<u8>, Seq<u8>)>,
    ConvertError,
> {
    match r {
        Ok(v) => Ok(entries_view(v@)),
        Err(e) => Err(e),
    }
}

pub open spec fn result_bytes_view(r: Result<Vec<u8>, ConvertError>) -> Result<Seq<u8>, ConvertError> {
    match r {
        Ok(v) => Ok(v@),
        Err(e) => Err(e),
    }
}

/// The entries of a full build archive: it must decompress as zstd, parse as
/// tar, hold an entry, and hold the build metadata as its first entry.
pub open spec fn full_archive_result(archive: Seq<u8>) -> Result<Seq<(Seq<u8>, Seq<u8>, Seq<u8>)>, ConvertError> {
    match zstd_decompressed(archive) {
        None => Err(ConvertError::Decompress),
        Some(t) => match tar_entries_of(t) {
            None => Err(ConvertError::NotTar),
            Some(es) => if es.len() == 0 {
                Err(ConvertError::Empty)
            } else if es[0].1 != ascii("python/PYTHON.json"@) {
                Err(ConvertError::NoBuildMetadata)
            } else {
                Ok(es)
            },
        },
    }
}

/// Reads a full build archive: decompresses it, parses its entries and
/// checks that the first one is the build metadata, `python/PYTHON.json`.
pub fn full_archive_entries(archive: &[u8]) -> (r: Result<Vec<TarEntry>, ConvertError>)
    ensures
        result_entries_view(r) == full_archive_result(archive@),
        r matches Ok(v) ==> headers_are_blocks(entries_view(v@)),
{
    let tar = match zstd_decompress(archive) {
        Some(t) => t,
        None => return Err(ConvertError::Decompress),
    };
    let entries = match tar_entries(tar.as_slice()) {
        Some(es) => es,
        None => return Err(ConvertError::NotTar),
    };
    if entries.len() == 0 {
        return Err(ConvertError::Empty);
    }
    assert(entries_view(entries@)[0].1 == entries@[0].path@);
    if !is_build_metadata(entries[0].path.as_slice()) {
        return Err(ConvertError::NoBuildMetadata);
    }
    Ok(entries)
}

/// Where a kept entry goes: `python/install/` becomes `python/`.
pub open spec fn install_only_path(path: Seq<u8>) -> Seq<u8> {
    ascii("python/"@) + path.skip(15)
}

/// The (header, data) pairs of the install-only archive made from `entries`:
/// each entry that the filter keeps, in order, with its header's path set to
/// its new path; `None` where a header refuses its new path.
pub open spec fn install_only_blocks(
    entries: Seq<(Seq<u8>, Seq<u8>, Seq<u8>)>,
    test_prefixes: Seq<Seq<u8>>,
    dropped: Set<Seq<u8>>,
) -> Option<Seq<(Seq<u8>, Seq<u8>)>>
    decreases entries.len(),
{
    if entries.len() == 0 {
        Some(Seq::empty())
    } else {
        let e = entries.last();
        match install_only_blocks(entries.drop_last(), test_prefixes, dropped) {
            None => None,
            Some(init) => if !install_only_keeps(e.1, test_prefixes, dropped) {
                Some(init)
            } else {
                match header_with_path(e.0, install_only_path(e.1)) {
                    None => None,
                    Some(h) => Some(init.push((h, e.2))),
                }
            },
        }
    }
}

/// `b` is what the install-only conversion makes of `entries`, with `f`
/// telling which entry each block comes from: the blocks come from exactly
/// the entries that the filter keeps, one each and in their order, with the
/// entry's own data and its header with the path `python/` followed by what
/// comes after `python/install/`.
pub open spec fn blocks_follow_filter(
    entries: Seq<(Seq<u8>, Seq<u8>, Seq<u8>)>,
    test_prefixes: Seq<Seq<u8>>,
    dropped: Set<Seq<u8>>,
    b: Seq<(Seq<u8>, Seq<u8>)>,
    f: spec_fn(int) -> int,
) -> bool {
    &&& forall|k: int|
        0 <= k < b.len() ==> {
            let i = #[trigger] f(k);
            &&& 0 <= i < entries.len()
            &&& install_only_keeps(entries[i].1, test_prefixes, dropped)
            &&& b[k].1 == entries[i].2
            &&& header_with_path(entries[i].0, ascii("python/"@) + entries[i].1.skip(15)) == Some(b[k].0)
        }
    &&& forall|k1: int, k2: int| 0 <= k1 < k2 < b.len() ==> #[trigger] f(k1) < #[trigger] f(k2)
    &&& forall|i: int|
        0 <= i < entries.len() && install_only_keeps(entries[i].1, test_prefixes, dropped) ==> exists|k: int|
            0 <= k < b.len() && #[trigger] f(k) == i
}

/// The install-only conversion keeps exactly the entries that the filter
/// keeps, in their order, each with its own data and its path moved from
/// `python/install/` to `python/`; it fails exactly where some kept entry's
/// header refuses its new path.
pub proof fn lemma_install_only_blocks_follow_filter(
    entries: Seq<(Seq<u8>, Seq<u8>, Seq<u8>)>,
    test_prefixes: Seq<Seq<u8>>,
    dropped: Set<Seq<u8>>,
)
    ensures
        install_only_blocks(entries, test_prefixes, dropped) is None <==> exists|i: int|
            0 <= i < entries.len() && install_only_keeps(entries[i].1, test_prefixes, dropped) && #[trigger] header_with_path(
                entries[i].0,
                ascii("python/"@) + entries[i].1.skip(15),
            ) is None,
        install_only_blocks(entries, test_prefixes, dropped) is Some ==> exists|f: spec_fn(int) -> int|
            blocks_follow_filter(entries, test_prefixes, dropped, install_only_blocks(entries, test_prefixes, dropped)->0, f),
    decreases entries.len(),
{
    let tp = test_prefixes;
    if entries.len() == 0 {
        let f = |k: int| k;
        assert(install_only_blocks(entries, tp, dropped) == Some(Seq::<(Seq<u8>, Seq<u8>)>::empty()));
        assert(blocks_follow_filter(entries, tp, dropped, Seq::empty(), f));
        assert(install_only_blocks(entries, tp, dropped)->0 == Seq::<(Seq<u8>, Seq<u8>)>::empty());
        assert(blocks_follow_filter(entries, tp, dropped, install_only_blocks(entries, tp, dropped)->0, f));
    } else {
        let init = entries.drop_last();
        let m = init.len() as int;
        let e = entries.last();
        lemma_install_only_blocks_follow_filter(init, tp, dropped);
        assert forall|i: int| 0 <= i < m implies entries[i] == init[i] by {}
        let np = ascii("python/"@) + e.1.skip(15);
        match install_only_blocks(init, tp, dropped) {
            None => {
                let i = choose|i: int|
                    0 <= i < init.len() && install_only_keeps(init[i].1, tp, dropped) && #[trigger] header_with_path(
                        init[i].0,
                        ascii("python/"@) + init[i].1.skip(15),
                    ) is None;
                assert(entries[i] == init[i]);
                assert(install_only_blocks(entries, tp, dropped) is None);
            },
            Some(b0) => {
                let f0 = choose|f: spec_fn(int) -> int| blocks_follow_filter(init, tp, dropped, b0, f);
                assert(entries[m] == e);
                if !install_only_keeps(e.1, tp, dropped) {
                    assert(install_only_blocks(entries, tp, dropped) == Some(b0));
                    assert forall|i: int|
                        0 <= i < entries.len() && install_only_keeps(entries[i].1, tp, dropped) implies #[trigger] header_with_path(
                        entries[i].0,
                        ascii("python/"@) + entries[i].1.skip(15),
                    ) is Some by {
                        let k = choose|k: int| 0 <= k < b0.len() && #[trigger] f0(k) == i;
                    }
                    assert forall|i: int|
                        0 <= i < entries.len() && install_only_keeps(entries[i].1, tp, dropped) implies exists|k: int|
                        0 <= k < b0.len() && #[trigger] f0(k) == i by {
                        assert(i < m);
                    }
                    assert forall|k: int| 0 <= k < b0.len() implies {
                        let i = #[trigger] f0(k);
                        &&& 0 <= i < entries.len()
                        &&& install_only_keeps(entries[i].1, tp, dropped)
                        &&& b0[k].1 == entries[i].2
                        &&& header_with_path(entries[i].0, ascii("python/"@) + entries[i].1.skip(15)) == Some(b0[k].0)
                    } by {
                        assert(entries[f0(k)] == init[f0(k)]);
                    }
                    assert(blocks_follow_filter(entries, tp, dropped, b0, f0));
                    assert(blocks_follow_filter(entries, tp, dropped, install_only_blocks(entries, tp, dropped)->0, f0));
                } else {
                    match header_with_path(e.0, np) {
                        None => {
                            assert(header_with_path(entries[m].0, ascii("python/"@) + entries[m].1.skip(15)) is None);
                            assert(install_only_blocks(entries, tp, dropped) is None);
                        },
                        Some(h) => {
                            let b = b0.push((h, e.2));
                            assert(install_only_blocks(entries, tp, dropped) == Some(b));
                            let f = |k: int| if k < b0.len() { f0(k) } else { m };
                            assert forall|k: int| 0 <= k < b.len() implies {
                                let i = #[trigger] f(k);
                                &&& 0 <= i < entries.len()
                                &&& install_only_keeps(entries[i].1, tp, dropped)
                                &&& b[k].1 == entries[i].2
                                &&& header_with_path(entries[i].0, ascii("python/"@) + entries[i].1.skip(15)) == Some(b[k].0)
                            } by {
                                if k < b0.len() {
                                    assert(b[k] == b0[k]);
                                    assert(f(k) == f0(k));
                                    assert(entries[f0(k)] == init[f0(k)]);
                                }
                            }
                            assert forall|k1: int, k2: int| 0 <= k1 < k2 < b.len() implies #[trigger] f(k1) < #[trigger] f(k2) by {
                                if k2 < b0.len() {
                                    assert(f0(k1) < f0(k2));
                                } else {
                                    assert(0 <= f0(k1) < m);
                                }
                            }
                            assert forall|i: int|
                                0 <= i < entries.len() && install_only_keeps(entries[i].1, tp, dropped) implies exists|k: int|
                                0 <= k < b.len() && #[trigger] f(k) == i by {
                                if i < m {
                                    let k = choose|k: int| 0 <= k < b0.len() && #[trigger] f0(k) == i;
                                    assert(f(k) == i);
                                } else {
                                    assert(f(b0.len() as int) == i);
                                }
                            }
                            assert(blocks_follow_filter(entries, tp, dropped, b, f));
                            assert(blocks_follow_filter(entries, tp, dropped, install_only_blocks(entries, tp, dropped)->0, f));
                            assert forall|i: int|
                                0 <= i < entries.len() && install_only_keeps(entries[i].1, tp, dropped) implies #[trigger] header_with_path(
                                entries[i].0,
                                ascii("python/"@) + entries[i].1.skip(15),
                            ) is Some by {
                                let k = choose|k: int| 0 <= k < b.len() && #[trigger] f(k) == i;
                            }
                        },
                    }
                }
            },
        }
    }
}

/// The install-only archive made from the entries of a full build archive:
/// its entries after the first (the build metadata) that the filter keeps,
/// moved from `python/install/` to `python/`, compressed with gzip.
pub open spec fn install_only_result(
    entries: Seq<(Seq<u8>, Seq<u8>, Seq<u8>)>,
    test_prefixes: Seq<Seq<u8>>,
    dropped: Set<Seq<u8>>,
) -> Result<Seq<u8>, ConvertError> {
    match install_only_blocks(entries.skip(1), test_prefixes, dropped) {
        None => Err(ConvertError::PathNotSettable),
        Some(b) => match tar_gz_of(b) {
            None => Err(ConvertError::Encode),
            Some(out) => Ok(out),
        },
    }
}

/// Once some prefix of the entries has a header that refuses its path, so do
/// all the entries.
proof fn lemma_install_only_blocks_none(
    entries: Seq<(Seq<u8>, Seq<u8>, Seq<u8>)>,
    n: int,
    test_prefixes: Seq<Seq<u8>>,
    dropped: Set<Seq<u8>>,
)
    requires
        0 <= n <= entries.len(),
        install_only_blocks(entries.take(n), test_prefixes, dropped) is None,
    ensures
        install_only_blocks(entries, test_prefixes, dropped) is None,
    decreases entries.len(),
{
    if entries.len() > n {
        assert(entries.drop_last().take(n) =~= entries.take(n));
        lemma_install_only_blocks_none(entries.drop_last(), n, test_prefixes, dropped);
    } else {
        assert(entries.take(n) =~= entries);
    }
}

/// Writes the install-only archive of a full build archive's entries, with
/// the filter made from its build metadata.
pub fn install_only_archive(entries: &Vec<TarEntry>, filter: &InstallOnlyFilter) -> (r: Result<Vec<u8>, ConvertError>)
    requires
        entries@.len() > 0,
        headers_are_blocks(entries_view(entries@)),
    ensures
        result_bytes_view(r) == install_only_result(
            entries_view(entries@),
            filter.spec_test_prefixes(),
            filter.spec_dropped(),
        ),
{
    let ghost tp = filter.spec_test_prefixes();
    let ghost dropped = filter.spec_dropped();
    let ghost ev = entries_view(entries@);
    let ghost es = ev.skip(1);
    let mut blocks: Vec<(Vec<u8>, Vec<u8>)> = Vec::new();
    let mut i: usize = 1;
    assert(es.take(0) =~= Seq::<(Seq<u8>, Seq<u8>, Seq<u8>)>::empty());
    assert(blocks_view(blocks@) =~= Seq::<(Seq<u8>, Seq<u8>)>::empty());
    while i < entries.len()
        invariant
            1 <= i <= entries@.len(),
            ev == entries_view(entries@),
            es == ev.skip(1),
            tp == filter.spec_test_prefixes(),
            dropped == filter.spec_dropped(),
            headers_are_blocks(ev),
            install_only_blocks(es.take(i - 1), tp, dropped) == Some(blocks_view(blocks@)),
            forall|j: int| 0 <= j < blocks@.len() ==> (#[trigger] blocks@[j]).0@.len() == 512,
        decreases entries@.len() - i,
    {
        let entry = &entries[i];
        assert(es[i - 1] == (entry.header@, entry.path@, entry.data@));
        assert(es.take(i as int).drop_last() =~= es.take(i - 1));
        assert(es.take(i as int).last() == es[i - 1]);
        if filter.keeps(entry.path.as_slice()) {
            let path = install_only_entry_path(entry.path.as_slice());
            assert(ev[i as int].0.len() == 512);
            match set_header_path(entry.header.as_slice(), path.as_slice()) {
                None => {
                    proof {
                        lemma_install_only_blocks_none(es, i as int, tp, dropped);
                    }
                    return Err(ConvertError::PathNotSettable);
                },
                Some(header) => {
                    let ghost before = blocks_view(blocks@);
                    let data = slice_to_bytes(entry.data.as_slice());
                    blocks.push((header, data));
                    assert(blocks_view(blocks@) =~= before.push((header@, data@)));
                },
            }
        }
        i = i + 1;
    }
    assert(es.take(entries@.len() - 1) =~= es);
    match build_tar_gz(&blocks) {
        Some(out) => Ok(out),
        None => Err(ConvertError::Encode),
    }
}

/// The entries of an install-only archive: it must decompress as gzip and
/// parse as tar.
pub open spec fn stripped_input_result(archive: Seq<u8>) -> Result<Seq<(Seq<u8>, Seq<u8>, Seq<u8>)>, ConvertError> {
    match gzip_decompressed(archive) {
        None => Err(ConvertError::Decompress),
        Some(t) => match tar_entries_of(t) {
            None => Err(ConvertError::NotTar),
            Some(es) => Ok(es),
        },
    }
}

/// The plan of the stripping conversion: the entries of an install-only
/// archive, each with what is done with it (dropped as a PDB file, stripped
/// as a binary, or kept as it is).
pub fn stripped_plan(archive: &[u8]) -> (r: Result<(Vec<TarEntry>, Vec<StripAction>), ConvertError>)
    ensures
        match r {
            Ok((es, acts)) => {
                &&& stripped_input_result(archive@) == Ok::<_, ConvertError>(entries_view(es@))
                &&& headers_are_blocks(entries_view(es@))
                &&& acts@.len() == es@.len()
                &&& forall|i: int|
                    0 <= i < es@.len() ==> #[trigger] acts@[i] == path_strip_action(es@[i].data@, es@[i].path@)
                &&& forall|i: int|
                    0 <= i < es@.len() && #[trigger] acts@[i] == StripAction::Drop ==> !is_strippable_kind(
                        object_file_kind(es@[i].data@),
                    )
            },
            Err(e) => stripped_input_result(archive@) == Err::<Seq<(Seq<u8>, Seq<u8>, Seq<u8>)>, _>(e),
        },
{
    let tar = match gzip_decompress(archive) {
        Some(t) => t,
        None => return Err(ConvertError::Decompress),
    };
    let entries = match tar_entries(tar.as_slice()) {
        Some(es) => es,
        None => return Err(ConvertError::NotTar),
    };
    let mut actions: Vec<StripAction> = Vec::new();
    let mut i: usize = 0;
    while i < entries.len()
        invariant
            i <= entries@.len(),
            actions@.len() == i,
            forall|j: int|
                0 <= j < i ==> #[trigger] actions@[j] == path_strip_action(entries@[j].data@, entries@[j].path@),
            forall|j: int|
                0 <= j < i && #[trigger] actions@[j] == StripAction::Drop ==> !is_strippable_kind(
                    object_file_kind(entries@[j].data@),
                ),
        decreases entries@.len() - i,
    {
        let a = entry_strip_action(entries[i].data.as_slice(), entries[i].path.as_slice());
        actions.push(a);
        i = i + 1;
    }
    Ok((entries, actions))
}

/// The data an entry carries in the stripped archive: the stripped data for
/// an entry that is stripped, its own data otherwise.
pub open spec fn stripped_data(e: (Seq<u8>, Seq<u8>, Seq<u8>), a: StripAction, s: Option<Seq<u8>>) -> Seq<u8> {
    match (a, s) {
        (StripAction::Strip, Some(d)) => d,
        _ => e.2,
    }
}

/// The (header, data) pairs of the stripped archive for the first `n`
/// entries: every entry that is not dropped, in order, with its data and a
/// header whose size is that of the data.
pub open spec fn stripped_blocks(
    entries: Seq<(Seq<u8>, Seq<u8>, Seq<u8>)>,
    actions: Seq<StripAction>,
    stripped: Seq<Option<Seq<u8>>>,
    n: nat,
) -> Seq<(Seq<u8>, Seq<u8>)>
    decreases n,
{
    if n == 0 {
        Seq::empty()
    } else {
        let i = n - 1;
        let init = stripped_blocks(entries, actions, stripped, i as nat);
        if actions[i] == StripAction::Drop {
            init
        } else {
            let d = stripped_data(entries[i], actions[i], stripped[i]);
            init.push((header_with_size(entries[i].0, d.len()), d))
        }
    }
}

/// `b` is what the stripping plan makes of the first `n` entries, with `f`
/// telling which entry each block comes from: the blocks come from exactly
/// the entries whose action is not `Drop`, one each and in their order, and
/// a block carries its entry's stripped data where the entry is stripped and
/// stripped data is given, the entry's own data otherwise, under the entry's
/// header with the size of that data.
pub open spec fn blocks_follow_plan(
    entries: Seq<(Seq<u8>, Seq<u8>, Seq<u8>)>,
    actions: Seq<StripAction>,
    stripped: Seq<Option<Seq<u8>>>,
    n: int,
    b: Seq<(Seq<u8>, Seq<u8>)>,
    f: spec_fn(int) -> int,
) -> bool {
    &&& forall|k: int|
        0 <= k < b.len() ==> {
            let i = #[trigger] f(k);
            &&& 0 <= i < n
            &&& actions[i] != StripAction::Drop
            &&& b[k].1 == if actions[i] == StripAction::Strip && stripped[i] is Some {
                stripped[i]->0
            } else {
                entries[i].2
            }
            &&& b[k].0 == header_with_size(entries[i].0, b[k].1.len())
        }
    &&& forall|k1: int, k2: int| 0 <= k1 < k2 < b.len() ==> #[trigger] f(k1) < #[trigger] f(k2)
    &&& forall|i: int| 0 <= i < n && actions[i] != StripAction::Drop ==> exists|k: int| 0 <= k < b.len() && #[trigger] f(k) == i
}

/// The stripped archive holds the entries that the plan does not drop, each
/// once, in their order, with their stripped or own data: an entry whose
/// action is `Drop` (a PDB file) never reaches it, so it has as many entries
/// as the plan has other actions.
pub proof fn lemma_stripped_blocks_follow_plan(
    entries: Seq<(Seq<u8>, Seq<u8>, Seq<u8>)>,
    actions: Seq<StripAction>,
    stripped: Seq<Option<Seq<u8>>>,
    n: nat,
)
    requires
        n <= entries.len(),
        n <= actions.len(),
        n <= stripped.len(),
    ensures
        exists|f: spec_fn(int) -> int|
            blocks_follow_plan(entries, actions, stripped, n as int, stripped_blocks(entries, actions, stripped, n), f),
    decreases n,
{
    let b = stripped_blocks(entries, actions, stripped, n);
    if n == 0 {
        let f = |k: int| k;
        assert(blocks_follow_plan(entries, actions, stripped, 0, b, f));
    } else {
        let m = (n - 1) as nat;
        lemma_stripped_blocks_follow_plan(entries, actions, stripped, m);
        let b0 = stripped_blocks(entries, actions, stripped, m);
        let f0 = choose|f: spec_fn(int) -> int| blocks_follow_plan(entries, actions, stripped, m as int, b0, f);
        if actions[m as int] == StripAction::Drop {
            assert(b == b0);
            assert forall|i: int| 0 <= i < n && actions[i] != StripAction::Drop implies exists|k: int|
                0 <= k < b.len() && #[trigger] f0(k) == i by {
                assert(i < m);
            }
            assert(blocks_follow_plan(entries, actions, stripped, n as int, b, f0));
        } else {
            let f = |k: int| if k < b0.len() { f0(k) } else { m as int };
            let d = stripped_data(entries[m as int], actions[m as int], stripped[m as int]);
            assert(b == b0.push((header_with_size(entries[m as int].0, d.len()), d)));
            assert forall|k: int| 0 <= k < b.len() implies {
                let i = #[trigger] f(k);
                &&& 0 <= i < n
                &&& actions[i] != StripAction::Drop
                &&& b[k].1 == if actions[i] == StripAction::Strip && stripped[i] is Some {
                    stripped[i]->0
                } else {
                    entries[i].2
                }
                &&& b[k].0 == header_with_size(entries[i].0, b[k].1.len())
            } by {
                if k < b0.len() {
                    assert(b[k] == b0[k]);
                    assert(f(k) == f0(k));
                }
            }
            assert forall|k1: int, k2: int| 0 <= k1 < k2 < b.len() implies #[trigger] f(k1) < #[trigger] f(k2) by {
                if k2 < b0.len() {
                    assert(f0(k1) < f0(k2));
                } else {
                    assert(0 <= f0(k1) < m);
                }
            }
            assert forall|i: int| 0 <= i < n && actions[i] != StripAction::Drop implies exists|k: int|
                0 <= k < b.len() && #[trigger] f(k) == i by {
                if i < m {
                    let k = choose|k: int| 0 <= k < b0.len() && #[trigger] f0(k) == i;
                    assert(f(k) == i);
                } else {
                    assert(f(b0.len() as int) == i);
                }
            }
            assert(blocks_follow_plan(entries, actions, stripped, n as int, b, f));
        }
    }
}

pub open spec fn opt_bytes_seq_view(v: Seq<Option<Vec<u8>>>) -> Seq<Option<Seq<u8>>> {
    v.map_values(|o: Option<Vec<u8>>| crate::archive::opt_bytes_view(o))
}

/// Writes the stripped archive from the plan and the stripped data of every
/// entry that the plan strips (`None` for the other entries).
pub fn stripped_archive(
    entries: &Vec<TarEntry>,
    actions: &Vec<StripAction>,
    stripped: &Vec<Option<Vec<u8>>>,
) -> (r: Result<Vec<u8>, ConvertError>)
    requires
        actions@.len() == entries@.len(),
        stripped@.len() == entries@.len(),
        headers_are_blocks(entries_view(entries@)),
        forall|i: int| 0 <= i < entries@.len() && actions@[i] == StripAction::Strip ==> (#[trigger] stripped@[i]) is Some,
    ensures
        result_bytes_view(r) == match tar_gz_of(
            stripped_blocks(entries_view(entries@), actions@, opt_bytes_seq_view(stripped@), entries@.len()),
        ) {
            Some(out) => Ok(out),
            None => Err(ConvertError::Encode),
        },
{
    let ghost ev = entries_view(entries@);
    let ghost sv = opt_bytes_seq_view(stripped@);
    let mut blocks: Vec<(Vec<u8>, Vec<u8>)> = Vec::new();
    let mut i: usize = 0;
    assert(blocks_view(blocks@) =~= Seq::<(Seq<u8>, Seq<u8>)>::empty());
    while i < entries.len()
        invariant
            i <= entries@.len(),
            actions@.len() == entries@.len(),
            stripped@.len() == entries@.len(),
            ev == entries_view(entries@),
            sv == opt_bytes_seq_view(stripped@),
            headers_are_blocks(ev),
            forall|i: int| 0 <= i < entries@.len() && actions@[i] == StripAction::Strip ==> (#[trigger] stripped@[i]) is Some,
            blocks_view(blocks@) == stripped_blocks(ev, actions@, sv, i as nat),
            forall|j: int| 0 <= j < blocks@.len() ==> (#[trigger] blocks@[j]).0@.len() == 512,
        decreases entries@.len() - i,
    {
        let entry = &entries[i];
        assert(ev[i as int] == (entry.header@, entry.path@, entry.data@));
        let ghost before = blocks_view(blocks@);
        let keep_data = match actions[i] {
            StripAction::Drop => None,
            StripAction::Strip => match &stripped[i] {
                Some(d) => Some(slice_to_bytes(d.as_slice())),
                None => Some(slice_to_bytes(entry.data.as_slice())),
            },
            StripAction::Keep => Some(slice_to_bytes(entry.data.as_slice())),
        };
        match keep_data {
            None => {},
            Some(data) => {
                assert(data@ == stripped_data(ev[i as int], actions@[i as int], sv[i as int]));
                assert(ev[i as int].0.len() == 512);
                let header = set_header_size(entry.header.as_slice(), data.len() as u64);
                blocks.push((header, data));
                assert(blocks_view(blocks@) =~= before.push((header@, data@)));
            },
        }
        i = i + 1;
    }
    match build_tar_gz(&blocks) {
        Some(out) => Ok(out),
        None => Err(ConvertError::Encode),
    }
}

} // verus!
