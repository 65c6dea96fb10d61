//! What the stripping conversion does with each entry of an install-only
//! archive: PDB files are dropped, ELF, Mach-O and PE binaries are stripped
//! (except for the DLLs whose signatures or embedded data stripping would
//! break), and everything else is kept as it is.

use vstd::prelude::*;
use crate::archive::opt_bytes_view;
use crate::install_only::{ascii, ascii_bytes, bytes_equal};

verus! {

/// The object-file kinds that matter for stripping.
#[derive(Debug, Clone, Copy, PartialEq, Eq)]
pub enum BinaryKind {
    Elf32,
    Elf64,
    MachO32,
    MachO64,
    MachOFat32,
    MachOFat64,
    Pe32,
    Pe64,
    /// Any other kind that `object` recognises.
    Other,
}

/// What to do with an archive entry.
#[derive(Debug, Clone, Copy, PartialEq, Eq)]
pub enum StripAction {
    /// Leave the entry out.
    Drop,
    /// Replace the entry's data by its stripped form.
    Strip,
    /// Copy the entry unchanged.
    Keep,
}

/// What `object::FileKind::parse` gives for the bytes: `None` where it fails,
/// else the kind.
pub uninterp spec fn object_file_kind(data: Seq<u8>) -> Option<BinaryKind>;

/// Whether `pdb::PDB::open` accepts the bytes as a PDB file.
pub uninterp spec fn pdb_opens(data: Seq<u8>) -> bool;

/// The magic bytes that `object::FileKind::parse` has seen where it names a
/// kind: at least 16 bytes, `7f 'E' 'L' 'F'` and the class byte for ELF, the
/// Mach-O magic in either byte order, the fat magic, and `'M' 'Z'` for PE.
pub open spec fn kind_magic_holds(k: BinaryKind, d: Seq<u8>) -> bool {
    &&& d.len() >= 16
    &&& match k {
        BinaryKind::Elf32 => d.take(5) == seq![0x7fu8, 0x45u8, 0x4cu8, 0x46u8, 1u8],
        BinaryKind::Elf64 => d.take(5) == seq![0x7fu8, 0x45u8, 0x4cu8, 0x46u8, 2u8],
        BinaryKind::MachO32 => d.take(4) == seq![0xfeu8, 0xedu8, 0xfau8, 0xceu8] || d.take(4) == seq![
            0xceu8,
            0xfau8,
            0xedu8,
            0xfeu8,
        ],
        BinaryKind::MachO64 => d.take(4) == seq![0xfeu8, 0xedu8, 0xfau8, 0xcfu8] || d.take(4) == seq![
            0xcfu8,
            0xfau8,
            0xedu8,
            0xfeu8,
        ],
        BinaryKind::MachOFat32 => d.take(4) == seq![0xcau8, 0xfeu8, 0xbau8, 0xbeu8],
        BinaryKind::MachOFat64 => d.take(4) == seq![0xcau8, 0xfeu8, 0xbau8, 0xbfu8],
        BinaryKind::Pe32 | BinaryKind::Pe64 => d[0] == 0x4du8 && d[1] == 0x5au8,
        BinaryKind::Other => true,
    }
}

/// The header that `pdb` requires of a PDB file (MSF 7.00).
pub open spec fn msf_magic() -> Seq<u8> {
    crate::install_only::ascii("Microsoft C/C++ MSF 7.00\r\n"@) + seq![0x1au8, 0x44u8, 0x53u8, 0u8, 0u8, 0u8]
}

/// Calls `object::FileKind::parse` on the bytes and reports the kind.
/// Claimed: the result is `object_file_kind` of the bytes, a function of them
/// alone, and a kind is only named where its magic bytes (`kind_magic_holds`)
/// begin the data; the rest of the parse is not stated.
#[verifier::external_body]
fn file_kind(data: &[u8]) -> (k: Option<BinaryKind>)
    ensures
        k == object_file_kind(data@),
        k matches Some(kind) ==> kind_magic_holds(kind, data@),
{
    match object::FileKind::parse(data) {
        Err(_) => None,
        Ok(object::FileKind::Elf32) => Some(BinaryKind::Elf32),
        Ok(object::FileKind::Elf64) => Some(BinaryKind::Elf64),
        Ok(object::FileKind::MachO32) => Some(BinaryKind::MachO32),
        Ok(object::FileKind::MachO64) => Some(BinaryKind::MachO64),
        Ok(object::FileKind::MachOFat32) => Some(BinaryKind::MachOFat32),
        Ok(object::FileKind::MachOFat64) => Some(BinaryKind::MachOFat64),
        Ok(object::FileKind::Pe32) => Some(BinaryKind::Pe32),
        Ok(object::FileKind::Pe64) => Some(BinaryKind::Pe64),
        Ok(_) => Some(BinaryKind::Other),
    }
}

/// Calls `pdb::PDB::open` on the bytes and reports whether it succeeded.
/// Claimed: the answer is `pdb_opens` of the bytes, a function of them alone,
/// and it is only yes where the data begins with the MSF 7.00 header
/// (`msf_magic`); the rest of what `open` checks is not stated.
#[verifier::external_body]
fn opens_as_pdb(data: &[u8]) -> (b: bool)
    ensures
        b == pdb_opens(data@),
        b ==> data@.len() >= 32 && data@.take(32) == msf_magic(),
{
    pdb::PDB::open(std::io::Cursor::new(data)).is_ok()
}

/// DLLs that are never stripped: MSVC runtime DLLs and Tcl/Tk DLLs that carry
/// signatures or ZIPFS data which stripping would invalidate.
pub open spec fn strip_exempt_names() -> Seq<Seq<char>> {
    seq![
        "tcl86t.dll"@,
        "tcl90.dll"@,
        "tcl9tk90.dll"@,
        "tcldde14.dll"@,
        "tclreg13.dll"@,
        "tk86t.dll"@,
        "vcruntime140.dll"@,
        "vcruntime140_1.dll"@,
        "vcruntime140_threads.dll"@,
    ]
}

/// ELF, Mach-O and PE files are the ones that get stripped.
pub open spec fn is_strippable_kind(k: Option<BinaryKind>) -> bool {
    match k {
        Some(BinaryKind::Other) => false,
        Some(_) => true,
        None => false,
    }
}

/// The bytes after the last `/` of `p` (all of `p` where it holds none).
pub open spec fn last_segment(p: Seq<u8>) -> Seq<u8>
    decreases p.len(),
{
    if p.len() == 0 || p.last() == 47u8 {
        Seq::empty()
    } else {
        last_segment(p.drop_last()).push(p.last())
    }
}

/// The file name of an archive path, as `std::path::Path::file_name` gives it
/// for `/`-separated paths: the last component, past trailing `/` and `.`
/// components; none where the path has no component or ends in `..`.
pub open spec fn path_file_name(p: Seq<u8>) -> Option<Seq<u8>>
    decreases p.len(),
{
    if p.len() == 0 {
        None
    } else if p.last() == 47u8 {
        path_file_name(p.drop_last())
    } else {
        let seg = last_segment(p);
        if seg == seq![46u8] {
            path_file_name(p.drop_last())
        } else if seg == seq![46u8, 46u8] {
            None
        } else {
            Some(seg)
        }
    }
}

/// The file name is, byte for byte, one of the DLLs that are never stripped.
pub open spec fn exempt_file_name(n: Seq<u8>) -> bool {
    exists|i: int| 0 <= i < strip_exempt_names().len() && ascii(#[trigger] strip_exempt_names()[i]) == n
}

/// What the stripping conversion does with an entry, given its data and its
/// path in the archive.
pub open spec fn path_strip_action(data: Seq<u8>, path: Seq<u8>) -> StripAction {
    if pdb_opens(data) {
        StripAction::Drop
    } else if is_strippable_kind(object_file_kind(data)) && !(path_file_name(path) matches Some(n)
        && exempt_file_name(n)) {
        StripAction::Strip
    } else {
        StripAction::Keep
    }
}

proof fn lemma_last_segment(q: Seq<u8>, start: int)
    requires
        0 <= start <= q.len(),
        start == 0 || q[start - 1] == 47u8,
        forall|k: int| start <= k < q.len() ==> q[k] != 47u8,
    ensures
        last_segment(q) == q.subrange(start, q.len() as int),
    decreases q.len(),
{
    if q.len() > start {
        lemma_last_segment(q.drop_last(), start);
        assert(q.subrange(start, q.len() as int) =~= q.drop_last().subrange(start, q.len() - 1).push(q.last()));
    } else {
        assert(q.subrange(start, q.len() as int) =~= Seq::<u8>::empty());
    }
}

/// The file name of an archive path.
pub fn file_name_of(p: &[u8]) -> (r: Option<Vec<u8>>)
    ensures
        opt_bytes_view(r) == path_file_name(p@),
{
    let mut end: usize = p.len();
    assert(p@.take(end as int) =~= p@);
    loop
        invariant
            end <= p@.len(),
            path_file_name(p@) == path_file_name(p@.take(end as int)),
        decreases end,
    {
        let ghost q = p@.take(end as int);
        if end == 0 {
            return None;
        }
        if p[end - 1] == 47u8 {
            assert(q.drop_last() =~= p@.take(end - 1));
            end = end - 1;
            continue;
        }
        let mut start: usize = end;
        while start > 0 && p[start - 1] != 47u8
            invariant
                start <= end <= p@.len(),
                forall|k: int| start <= k < end ==> p@[k] != 47u8,
            decreases start,
        {
            start = start - 1;
        }
        proof {
            lemma_last_segment(q, start as int);
        }
        let len = end - start;
        if len == 1 && p[start] == 46u8 {
            assert(last_segment(q) =~= seq![46u8]);
            assert(q.drop_last() =~= p@.take(end - 1));
            end = end - 1;
            continue;
        }
        if len == 2 && p[start] == 46u8 && p[start + 1] == 46u8 {
            assert(last_segment(q) =~= seq![46u8, 46u8]);
            return None;
        }
        let mut seg: Vec<u8> = Vec::new();
        let mut k: usize = start;
        while k < end
            invariant
                start <= k <= end <= p@.len(),
                seg@ == p@.subrange(start as int, k as int),
            decreases end - k,
        {
            seg.push(p[k]);
            assert(seg@ =~= p@.subrange(start as int, k + 1));
            k = k + 1;
        }
        assert(seg@ =~= last_segment(q));
        assert(seg@ != seq![46u8]) by {
            if seg@ =~= seq![46u8] {
                assert(seg@[0] == p@[start as int]);
            }
        }
        assert(seg@ != seq![46u8, 46u8]) by {
            if seg@ =~= seq![46u8, 46u8] {
                assert(seg@[0] == p@[start as int]);
                assert(seg@[1] == p@[start + 1]);
            }
        }
        return Some(seg);
    }
}

/// Whether the bytes spell the ASCII text.
fn name_is(n: &[u8], s: &str) -> (r: bool)
    requires
        s.is_ascii(),
    ensures
        r == (n@ == ascii(s@)),
{
    bytes_equal(n, ascii_bytes(s))
}

/// Whether the file name is one of the DLLs that are never stripped.
fn is_exempt_file_name(name: &[u8]) -> (r: bool)
    ensures
        r == exempt_file_name(name@),
{
    proof {
        reveal_strlit("tcl86t.dll");
        reveal_strlit("tcl90.dll");
        reveal_strlit("tcl9tk90.dll");
        reveal_strlit("tcldde14.dll");
        reveal_strlit("tclreg13.dll");
        reveal_strlit("tk86t.dll");
        reveal_strlit("vcruntime140.dll");
        reveal_strlit("vcruntime140_1.dll");
        reveal_strlit("vcruntime140_threads.dll");
    }
    assert(strip_exempt_names()[0] == "tcl86t.dll"@);
    assert(strip_exempt_names()[1] == "tcl90.dll"@);
    assert(strip_exempt_names()[2] == "tcl9tk90.dll"@);
    assert(strip_exempt_names()[3] == "tcldde14.dll"@);
    assert(strip_exempt_names()[4] == "tclreg13.dll"@);
    assert(strip_exempt_names()[5] == "tk86t.dll"@);
    assert(strip_exempt_names()[6] == "vcruntime140.dll"@);
    assert(strip_exempt_names()[7] == "vcruntime140_1.dll"@);
    assert(strip_exempt_names()[8] == "vcruntime140_threads.dll"@);
    let r = name_is(name, "tcl86t.dll")
        || name_is(name, "tcl90.dll")
        || name_is(name, "tcl9tk90.dll")
        || name_is(name, "tcldde14.dll")
        || name_is(name, "tclreg13.dll")
        || name_is(name, "tk86t.dll")
        || name_is(name, "vcruntime140.dll")
        || name_is(name, "vcruntime140_1.dll")
        || name_is(name, "vcruntime140_threads.dll");
    assert(r ==> exempt_file_name(name@));
    assert(exempt_file_name(name@) ==> r) by {
        if exempt_file_name(name@) {
            let i = choose|i: int| 0 <= i < strip_exempt_names().len() && ascii(#[trigger] strip_exempt_names()[i]) == name@;
            assert(0 <= i < 9);
        }
    }
    r
}

/// Decides what the stripping conversion does with an archive entry, from
/// its data and its path. An ELF, Mach-O or PE file is never dropped as a
/// PDB file: their magic bytes differ from the PDB header.
pub fn entry_strip_action(data: &[u8], path: &[u8]) -> (a: StripAction)
    ensures
        a == path_strip_action(data@, path@),
        a == StripAction::Drop ==> !is_strippable_kind(object_file_kind(data@)),
{
    let kind = file_kind(data);
    let strippable = match kind {
        Some(BinaryKind::Other) => false,
        Some(_) => true,
        None => false,
    };
    if opens_as_pdb(data) {
        proof {
            reveal_strlit("Microsoft C/C++ MSF 7.00\r\n");
            let m = msf_magic();
            assert(m[0] == 0x4du8);
            assert(m[1] == 0x69u8);
            assert(data@[0] == data@.take(32)[0]);
            assert(data@[1] == data@.take(32)[1]);
            if strippable {
                let k = kind->0;
                assert(kind_magic_holds(k, data@));
                assert(data@[0] == data@.take(5)[0]);
                assert(data@[0] == data@.take(4)[0]);
            }
        }
        return StripAction::Drop;
    }
    if !strippable {
        return StripAction::Keep;
    }
    let exempt = match file_name_of(path) {
        Some(n) => is_exempt_file_name(n.as_slice()),
        None => false,
    };
    if exempt {
        StripAction::Keep
    } else {
        StripAction::Strip
    }
}

/// The stripping conversion drops what opens as a PDB file, keeps what is not
/// an ELF, Mach-O or PE binary, keeps the binaries named `tcl86t.dll`,
/// `tcl90.dll`, `tcl9tk90.dll`, `tcldde14.dll`, `tclreg13.dll`, `tk86t.dll`,
/// `vcruntime140.dll`, `vcruntime140_1.dll` or `vcruntime140_threads.dll`
/// (signed, or carrying ZIPFS data), and strips every other binary.
pub proof fn lemma_strip_decision(data: Seq<u8>, path: Seq<u8>)
    ensures
        path_strip_action(data, path) == if pdb_opens(data) {
            StripAction::Drop
        } else if !is_strippable_kind(object_file_kind(data)) {
            StripAction::Keep
        } else if path_file_name(path) matches Some(n) && (n == ascii("tcl86t.dll"@)
            || n == ascii("tcl90.dll"@)
            || n == ascii("tcl9tk90.dll"@)
            || n == ascii("tcldde14.dll"@)
            || n == ascii("tclreg13.dll"@)
            || n == ascii("tk86t.dll"@)
            || n == ascii("vcruntime140.dll"@)
            || n == ascii("vcruntime140_1.dll"@)
            || n == ascii("vcruntime140_threads.dll"@)) {
            StripAction::Keep
        } else {
            StripAction::Strip
        },
{
    reveal_strlit("tcl86t.dll");
    reveal_strlit("tcl90.dll");
    reveal_strlit("tcl9tk90.dll");
    reveal_strlit("tcldde14.dll");
    reveal_strlit("tclreg13.dll");
    reveal_strlit("tk86t.dll");
    reveal_strlit("vcruntime140.dll");
    reveal_strlit("vcruntime140_1.dll");
    reveal_strlit("vcruntime140_threads.dll");
    assert(strip_exempt_names()[0] == "tcl86t.dll"@);
    assert(strip_exempt_names()[1] == "tcl90.dll"@);
    assert(strip_exempt_names()[2] == "tcl9tk90.dll"@);
    assert(strip_exempt_names()[3] == "tcldde14.dll"@);
    assert(strip_exempt_names()[4] == "tclreg13.dll"@);
    assert(strip_exempt_names()[5] == "tk86t.dll"@);
    assert(strip_exempt_names()[6] == "vcruntime140.dll"@);
    assert(strip_exempt_names()[7] == "vcruntime140_1.dll"@);
    assert(strip_exempt_names()[8] == "vcruntime140_threads.dll"@);
    if let Some(n) = path_file_name(path) {
        if exempt_file_name(n) {
            let i = choose|i: int| 0 <= i < strip_exempt_names().len() && ascii(#[trigger] strip_exempt_names()[i]) == n;
            assert(i == 0 || i == 1 || i == 2 || i == 3 || i == 4 || i == 5 || i == 6 || i == 7 || i == 8);
        }
        if n == ascii("tcl86t.dll"@)
            || n == ascii("tcl90.dll"@)
            || n == ascii("tcl9tk90.dll"@)
            || n == ascii("tcldde14.dll"@)
            || n == ascii("tclreg13.dll"@)
            || n == ascii("tk86t.dll"@)
            || n == ascii("vcruntime140.dll"@)
            || n == ascii("vcruntime140_1.dll"@)
            || n == ascii("vcruntime140_threads.dll"@) {
            assert(exempt_file_name(n)) by {
                if n == ascii("tcl86t.dll"@) { assert(ascii(strip_exempt_names()[0]) == n); }
                else if n == ascii("tcl90.dll"@) { assert(ascii(strip_exempt_names()[1]) == n); }
                else if n == ascii("tcl9tk90.dll"@) { assert(ascii(strip_exempt_names()[2]) == n); }
                else if n == ascii("tcldde14.dll"@) { assert(ascii(strip_exempt_names()[3]) == n); }
                else if n == ascii("tclreg13.dll"@) { assert(ascii(strip_exempt_names()[4]) == n); }
                else if n == ascii("tk86t.dll"@) { assert(ascii(strip_exempt_names()[5]) == n); }
                else if n == ascii("vcruntime140.dll"@) { assert(ascii(strip_exempt_names()[6]) == n); }
                else if n == ascii("vcruntime140_1.dll"@) { assert(ascii(strip_exempt_names()[7]) == n); }
                else { assert(ascii(strip_exempt_names()[8]) == n); }
            }
        }
    }
}

/// The file name of `dir/name` is `name`, for any directory and any
/// non-empty name without `/` other than `.` and `..`; so is that of `name`
/// alone.
pub proof fn lemma_file_name_of_joined(dir: Seq<u8>, name: Seq<u8>)
    requires
        name.len() > 0,
        forall|k: int| 0 <= k < name.len() ==> name[k] != 47u8,
        name != seq![46u8],
        name != seq![46u8, 46u8],
    ensures
        path_file_name(dir + seq![47u8] + name) == Some(name),
        path_file_name(name) == Some(name),
{
    let p = dir + seq![47u8] + name;
    let start = dir.len() + 1;
    assert(p[start - 1] == 47u8);
    lemma_last_segment(p, start as int);
    assert(p.subrange(start as int, p.len() as int) =~= name);
    assert(p.last() == name.last());
    lemma_last_segment(name, 0);
    assert(name.subrange(0, name.len() as int) =~= name);
}

} // verus!
