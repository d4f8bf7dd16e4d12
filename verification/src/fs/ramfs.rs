//! The files built into the kernel.

use vstd::prelude::*;
use vstd::string::StringSliceAdditionalSpecFns;
use crate::shell::path::{eq_ignore_ascii_case, eq_ignore_case_spec};

verus! {

#[derive(Clone, Copy)]
pub struct RamFile {
    pub name: &'static str,
    pub data: &'static [u8],
}

pub const README: &'static str = "Welcome to Rootleaf RAMFS.\nThis file lives in kernel memory.\n";

pub const CONFIG: &'static str = "DEVICE=FRAMEBUFFER\nKEYBOARD=PS2\nSHELL=ROOTLEAF\n";

pub const AUTOEXEC: &'static str = "ECHO Rootleaf booted\n";

/// The names of the files, in order.
pub open spec fn file_names() -> Seq<Seq<u8>> {
    seq!["README.TXT".spec_bytes(), "CONFIG.SYS".spec_bytes(), "AUTOEXEC.BAT".spec_bytes()]
}

/// The contents of the files, in order.
pub open spec fn file_contents() -> Seq<Seq<u8>> {
    seq![README.spec_bytes(), CONFIG.spec_bytes(), AUTOEXEC.spec_bytes()]
}

/// The index of the first file named `name`, ignoring ASCII case.
pub open spec fn find_index(name: Seq<u8>) -> Option<int> {
    if eq_ignore_case_spec(name, file_names()[0]) {
        Some(0)
    } else if eq_ignore_case_spec(name, file_names()[1]) {
        Some(1)
    } else if eq_ignore_case_spec(name, file_names()[2]) {
        Some(2)
    } else {
        None
    }
}

pub open spec fn file_matches(f: RamFile, i: int) -> bool {
    f.name.spec_bytes() == file_names()[i] && f.data@ == file_contents()[i]
}

/// The built-in files.
pub fn files() -> (r: Vec<RamFile>)
    ensures
        r@.len() == 3,
        forall|i: int| 0 <= i < 3 ==> file_matches(#[trigger] r@[i], i),
{
    let mut v: Vec<RamFile> = Vec::new();
    v.push(RamFile { name: "README.TXT", data: README.as_bytes() });
    v.push(RamFile { name: "CONFIG.SYS", data: CONFIG.as_bytes() });
    v.push(RamFile { name: "AUTOEXEC.BAT", data: AUTOEXEC.as_bytes() });
    v
}

/// The first file named `name`, ignoring ASCII case.
pub fn find(name: &[u8]) -> (r: Option<RamFile>)
    ensures
        r is Some <==> find_index(name@) is Some,
        r matches Some(f) ==> file_matches(f, find_index(name@).unwrap()),
{
    let all = files();
    let mut i: usize = 0;
    while i < all.len()
        invariant
            all@.len() == 3,
            forall|k: int| 0 <= k < 3 ==> file_matches(#[trigger] all@[k], k),
            i <= 3,
            forall|k: int| 0 <= k < i ==> !eq_ignore_case_spec(name@, #[trigger] file_names()[k]),
        decreases 3 - i,
    {
        let f = all[i];
        assert(file_matches(all@[i as int], i as int));
        if eq_ignore_ascii_case(name, f.name.as_bytes()) {
            return Some(f);
        }
        i += 1;
    }
    None
}

/// How many files there are.
pub fn count() -> (r: usize)
    ensures
        r == 3,
{
    files().len()
}

/// The sum of the files' sizes.
pub fn total_size() -> (r: usize)
    ensures
        r == file_contents()[0].len() + file_contents()[1].len() + file_contents()[2].len(),
{
    let all = files();
    assert(file_matches(all@[0], 0) && file_matches(all@[1], 1) && file_matches(all@[2], 2));
    proof {
        reveal_strlit("Welcome to Rootleaf RAMFS.\nThis file lives in kernel memory.\n");
        reveal_strlit("DEVICE=FRAMEBUFFER\nKEYBOARD=PS2\nSHELL=ROOTLEAF\n");
        reveal_strlit("ECHO Rootleaf booted\n");
        vstd::string::is_ascii_spec_bytes(README);
        vstd::string::is_ascii_spec_bytes(CONFIG);
        vstd::string::is_ascii_spec_bytes(AUTOEXEC);
    }
    let mut size: usize = 0;
    let mut i: usize = 0;
    while i < all.len()
        invariant
            all@.len() == 3,
            forall|k: int| 0 <= k < 3 ==> file_matches(#[trigger] all@[k], k),
            file_contents()[0].len() + file_contents()[1].len() + file_contents()[2].len() <= 200,
            i <= 3,
            size == (if i >= 1 { file_contents()[0].len() } else { 0 }) + (if i >= 2 {
                file_contents()[1].len()
            } else {
                0
            }) + (if i >= 3 { file_contents()[2].len() } else { 0 }),
        decreases 3 - i,
    {
        assert(file_matches(all@[i as int], i as int));
        size += all[i].data.len();
        i += 1;
    }
    size
}

} // verus!
