use vstd::prelude::*;

use crate::names::{bytes_equal, copy_bytes, ends_with, ends_with_spec};

verus! {

/// One named file of an archive.
#[derive(Clone, Debug)]
pub struct ArchiveEntry {
    pub name: Vec<u8>,
    pub data: Vec<u8>,
}

/// The image decoders that archive textures can be handed to.
#[derive(Clone, Copy, Debug, PartialEq, Eq, Structural)]
pub enum ImageFormat {
    Bmp,
    Dds,
    Unsupported,
}

pub open spec fn wld_suffix() -> Seq<u8> {
    seq![46u8, 119, 108, 100]
}

pub open spec fn bmp_suffix() -> Seq<u8> {
    seq![46u8, 98, 109, 112]
}

pub open spec fn dds_suffix() -> Seq<u8> {
    seq![46u8, 100, 100, 115]
}

/// The decoder for a file name, by its (lower-case) extension.
pub open spec fn image_format_spec(filename: Seq<u8>) -> ImageFormat {
    if ends_with_spec(filename, bmp_suffix()) {
        ImageFormat::Bmp
    } else if ends_with_spec(filename, dds_suffix()) {
        ImageFormat::Dds
    } else {
        ImageFormat::Unsupported
    }
}

/// Picks the image decoder for a file name by its extension.
pub fn image_format(filename: &Vec<u8>) -> (r: ImageFormat)
    ensures
        r == image_format_spec(filename@),
{
    let bmp = vec![46u8, 98, 109, 112];
    let dds = vec![46u8, 100, 100, 115];
    assert(bmp@ == bmp_suffix());
    assert(dds@ == dds_suffix());
    if ends_with(filename, &bmp) {
        ImageFormat::Bmp
    } else if ends_with(filename, &dds) {
        ImageFormat::Dds
    } else {
        ImageFormat::Unsupported
    }
}

/// The first position at or after `k` of an entry named `name`, or -1.
pub open spec fn find_entry_from(entries: Seq<ArchiveEntry>, name: Seq<u8>, k: int) -> int
    decreases entries.len() - k,
{
    if k < 0 || k >= entries.len() {
        -1
    } else if entries[k].name@ == name {
        k
    } else {
        find_entry_from(entries, name, k + 1)
    }
}

proof fn lemma_find_entry(entries: Seq<ArchiveEntry>, name: Seq<u8>, k: int)
    requires
        0 <= k,
    ensures
        find_entry_from(entries, name, k) == -1 || (k <= find_entry_from(entries, name, k)
            < entries.len() && entries[find_entry_from(entries, name, k)].name@ == name),
    decreases entries.len() - k,
{
    if k < entries.len() && entries[k].name@ != name {
        lemma_find_entry(entries, name, k + 1);
    }
}

/// The files of one archive (a zone, or a set of objects or characters),
/// and the stem of the archive's own file name.
#[derive(Clone, Debug)]
pub struct EQArchive {
    pub name: Vec<u8>,
    pub entries: Vec<ArchiveEntry>,
}

impl EQArchive {
    /// Wraps the files read from an archive named `name` (its file stem).
    pub fn new(name: Vec<u8>, entries: Vec<ArchiveEntry>) -> (a: EQArchive)
        ensures
            a.name@ == name@,
            a.entries@ == entries@,
    {
        EQArchive { name, entries }
    }

    /// The names of all files, in archive order.
    pub fn get_filenames(&self) -> (r: Vec<Vec<u8>>)
        ensures
            r@.len() == self.entries@.len(),
            forall|i: int| 0 <= i < r@.len() ==> (#[trigger] r@[i])@ == self.entries@[i].name@,
    {
        let mut out: Vec<Vec<u8>> = Vec::new();
        let mut i: usize = 0;
        while i < self.entries.len()
            invariant
                i <= self.entries@.len(),
                out@.len() == i,
                forall|k: int| 0 <= k < i ==> (#[trigger] out@[k])@ == self.entries@[k].name@,
            decreases self.entries@.len() - i,
        {
            out.push(copy_bytes(&self.entries[i].name));
            i = i + 1;
        }
        out
    }

    /// The position of the first file named `filename`.
    pub fn find(&self, filename: &Vec<u8>) -> (r: Option<usize>)
        ensures
            match r {
                Some(k) => find_entry_from(self.entries@, filename@, 0) == k as int,
                None => find_entry_from(self.entries@, filename@, 0) == -1,
            },
    {
        let mut p: usize = self.entries.len();
        let mut found: Option<usize> = None;
        while p > 0
            invariant
                p <= self.entries@.len(),
                match found {
                    Some(k) => find_entry_from(self.entries@, filename@, p as int) == k as int,
                    None => find_entry_from(self.entries@, filename@, p as int) == -1,
                },
            decreases p,
        {
            p = p - 1;
            if bytes_equal(&self.entries[p].name, filename) {
                found = Some(p);
            }
        }
        found
    }

    /// The contents of the first file named `filename`.
    pub fn get(&self, filename: &Vec<u8>) -> (r: Option<&Vec<u8>>)
        ensures
            r is Some <==> find_entry_from(self.entries@, filename@, 0) >= 0,
            r matches Some(d) ==> *d == self.entries@[find_entry_from(
                self.entries@,
                filename@,
                0,
            )].data,
    {
        proof {
            lemma_find_entry(self.entries@, filename@, 0);
        }
        match self.find(filename) {
            Some(k) => Some(&self.entries[k].data),
            None => None,
        }
    }

    /// A copy of the contents of the first file named `filename`; empty
    /// when there is none.
    pub fn get_bytes(&self, filename: &Vec<u8>) -> (r: Vec<u8>)
        ensures
            find_entry_from(self.entries@, filename@, 0) >= 0 ==> r@ == self.entries@[find_entry_from(
                self.entries@,
                filename@,
                0,
            )].data@,
            find_entry_from(self.entries@, filename@, 0) < 0 ==> r@.len() == 0,
    {
        match self.get(filename) {
            Some(d) => copy_bytes(d),
            None => Vec::new(),
        }
    }

    /// The name of the archive's main world file: its stem and `.wld`.
    pub fn main_wld_name(&self) -> (r: Vec<u8>)
        ensures
            r@ == self.name@ + wld_suffix(),
    {
        let mut r = copy_bytes(&self.name);
        r.push(46u8);
        r.push(119u8);
        r.push(108u8);
        r.push(100u8);
        assert(r@ == self.name@ + wld_suffix());
        r
    }
}

/// The name of a zone archive's light world file.
pub fn lights_wld_name() -> (r: Vec<u8>)
    ensures
        r@ == seq![108u8, 105, 103, 104, 116, 115] + wld_suffix(),
{
    let r = vec![108u8, 105, 103, 104, 116, 115, 46, 119, 108, 100];
    assert(r@ == seq![108u8, 105, 103, 104, 116, 115] + wld_suffix());
    r
}

/// The name of a zone archive's object-placement world file.
pub fn actorinst_wld_name() -> (r: Vec<u8>)
    ensures
        r@ == seq![111u8, 98, 106, 101, 99, 116, 115] + wld_suffix(),
{
    let r = vec![111u8, 98, 106, 101, 99, 116, 115, 46, 119, 108, 100];
    assert(r@ == seq![111u8, 98, 106, 101, 99, 116, 115] + wld_suffix());
    r
}

} // verus!
