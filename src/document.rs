use vstd::prelude::*;

use crate::error::WldError;
use crate::fragment::{
    BmInfo, Fragment, FragmentKind, FragmentRef, HierarchicalSpriteDef, MaterialDef, MaterialPalette,
    SimpleSprite, SimpleSpriteDef, StringReference, Track, TrackDef,
};

verus! {

/// The end (exclusive) of the null-terminated string that starts at `i`:
/// the position of the first zero byte at or after `i`, or the table's end.
pub open spec fn nul_end(table: Seq<u8>, i: int) -> int
    decreases table.len() - i,
{
    if i < 0 || i >= table.len() {
        table.len() as int
    } else if table[i] == 0 {
        i
    } else {
        nul_end(table, i + 1)
    }
}

/// The bytes of the string that starts at byte offset `off`.
pub open spec fn string_at(table: Seq<u8>, off: int) -> Seq<u8> {
    table.subrange(off, nul_end(table, off))
}

proof fn lemma_nul_end_bounds(table: Seq<u8>, i: int)
    requires
        0 <= i <= table.len(),
    ensures
        i <= nul_end(table, i) <= table.len(),
    decreases table.len() - i,
{
    if i < table.len() && table[i] != 0 {
        lemma_nul_end_bounds(table, i + 1);
    }
}

/// An immutable snapshot of one decoded world file: the fragments in file
/// order (the fragment at position `p` has index `p + 1`) and the string table.
#[derive(Clone, Debug)]
pub struct Document {
    pub fragments: Vec<Fragment>,
    pub strings: Vec<u8>,
}

impl Document {
    pub open spec fn frags(&self) -> Seq<Fragment> {
        self.fragments@
    }

    pub open spec fn count_spec(&self) -> int {
        self.fragments@.len() as int
    }

    /// What a string reference resolves to: no name for zero and positive
    /// values, an error past the table, else the string at offset `-value`.
    pub open spec fn spec_string(&self, r: StringReference) -> Result<Option<Seq<u8>>, WldError> {
        if r.0 >= 0 {
            Ok(None)
        } else if -(r.0 as int) >= self.strings@.len() {
            Err(WldError::InvalidStringRef { reference: r })
        } else {
            Ok(Some(string_at(self.strings@, -(r.0 as int))))
        }
    }

    /// The result of looking up a 1-based index.
    pub open spec fn spec_by_index(&self, index: u32) -> Result<Fragment, WldError> {
        if index == 0 || index as int > self.count_spec() {
            Err(WldError::OutOfRange { index, count: self.fragments@.len() as usize })
        } else {
            Ok(self.fragments@[index - 1])
        }
    }

    /// Whether the fragment at position `p` has the given kind and name.
    pub open spec fn is_named(&self, p: int, kind: FragmentKind, name: Seq<u8>) -> bool {
        &&& self.fragments@[p].spec_kind() == kind
        &&& self.spec_string(self.fragments@[p].spec_name_reference()) == Ok::<
            Option<Seq<u8>>,
            WldError,
        >(Some(name))
    }

    /// The first position at or after `start` whose fragment has the given
    /// kind and name.
    pub open spec fn first_named_from(&self, kind: FragmentKind, name: Seq<u8>, start: int) -> Option<int>
        decreases self.count_spec() - start,
    {
        if start < 0 || start >= self.count_spec() {
            None
        } else if self.is_named(start, kind, name) {
            Some(start)
        } else {
            self.first_named_from(kind, name, start + 1)
        }
    }

    /// What a typed reference resolves to: the 0-based position of a
    /// fragment of `kind`, or the error that the lookup meets first.
    pub open spec fn spec_resolve(&self, r: FragmentRef, kind: FragmentKind) -> Result<int, WldError> {
        match r {
            FragmentRef::Index(i) => {
                if i == 0 || i as int > self.count_spec() {
                    Err(WldError::OutOfRange { index: i, count: self.fragments@.len() as usize })
                } else if self.fragments@[i - 1].spec_kind() != kind {
                    Err(
                        WldError::TypeMismatch {
                            index: i,
                            expected: kind,
                            actual: self.fragments@[i - 1].spec_kind(),
                        },
                    )
                } else {
                    Ok(i - 1)
                }
            },
            FragmentRef::Name(s) => {
                match self.spec_string(s) {
                    Err(e) => Err(e),
                    Ok(None) => Err(WldError::BrokenReference { via: r }),
                    Ok(Some(name)) => match self.first_named_from(kind, name, 0) {
                        Some(p) => Ok(p),
                        None => Err(WldError::BrokenReference { via: r }),
                    },
                }
            },
        }
    }

    /// The 1-based indices of the fragments among the first `n` that have `kind`.
    pub open spec fn indices_of_kind_upto(&self, kind: FragmentKind, n: int) -> Seq<usize>
        decreases n,
    {
        if n <= 0 {
            Seq::empty()
        } else if self.fragments@[n - 1].spec_kind() == kind {
            self.indices_of_kind_upto(kind, n - 1).push(n as usize)
        } else {
            self.indices_of_kind_upto(kind, n - 1)
        }
    }

    /// Builds a document from decoded fragments and the raw string table.
    pub fn new(fragments: Vec<Fragment>, strings: Vec<u8>) -> (d: Document)
        ensures
            d.fragments@ == fragments@,
            d.strings@ == strings@,
    {
        Document { fragments, strings }
    }

    /// The number of fragments.
    pub fn fragment_count(&self) -> (n: usize)
        ensures
            n as int == self.count_spec(),
    {
        self.fragments.len()
    }

    /// The fragment with the given 1-based index.
    pub fn get_by_index(&self, index: u32) -> (res: Result<&Fragment, WldError>)
        ensures
            res is Ok <==> 1 <= index <= self.count_spec(),
            res matches Ok(f) ==> self.spec_by_index(index) == Ok::<Fragment, WldError>(*f),
            res matches Err(e) ==> self.spec_by_index(index) == Err::<Fragment, WldError>(e),
    {
        if index == 0 || index as usize > self.fragments.len() {
            Err(WldError::OutOfRange { index, count: self.fragments.len() })
        } else {
            Ok(&self.fragments[index as usize - 1])
        }
    }

    /// Resolves a string reference to a copy of the bytes it names.
    pub fn get_string(&self, r: StringReference) -> (res: Result<Option<Vec<u8>>, WldError>)
        ensures
            match res {
                Ok(None) => self.spec_string(r) == Ok::<Option<Seq<u8>>, WldError>(None),
                Ok(Some(v)) => self.spec_string(r) == Ok::<Option<Seq<u8>>, WldError>(Some(v@)),
                Err(e) => self.spec_string(r) == Err::<Option<Seq<u8>>, WldError>(e),
            },
    {
        if r.0 >= 0 {
            return Ok(None);
        }
        let off: usize = (-(r.0 as i64)) as usize;
        if off >= self.strings.len() {
            return Err(WldError::InvalidStringRef { reference: r });
        }
        let ghost table = self.strings@;
        let mut out: Vec<u8> = Vec::new();
        let mut i: usize = off;
        while i < self.strings.len() && self.strings[i] != 0
            invariant
                table == self.strings@,
                off <= i <= table.len(),
                off < table.len(),
                out@ == table.subrange(off as int, i as int),
                nul_end(table, off as int) == nul_end(table, i as int),
            decreases table.len() - i,
        {
            out.push(self.strings[i]);
            i = i + 1;
            assert(out@ == table.subrange(off as int, i as int));
        }
        Ok(Some(out))
    }

    /// Whether `r` resolves to a string equal to `name`.
    pub fn string_equals(&self, r: StringReference, name: &Vec<u8>) -> (b: bool)
        ensures
            b == (self.spec_string(r) == Ok::<Option<Seq<u8>>, WldError>(Some(name@))),
    {
        if r.0 >= 0 {
            return false;
        }
        let off: usize = (-(r.0 as i64)) as usize;
        if off >= self.strings.len() {
            return false;
        }
        let ghost table = self.strings@;
        proof {
            lemma_nul_end_bounds(table, off as int);
        }
        assert(self.spec_string(r) == Ok::<Option<Seq<u8>>, WldError>(
            Some(string_at(table, off as int)),
        ));
        let n: usize = self.strings.len();
        let mut k: usize = 0;
        while k < name.len()
            invariant
                table == self.strings@,
                n == table.len(),
                self.spec_string(r) == Ok::<Option<Seq<u8>>, WldError>(
                    Some(string_at(table, off as int)),
                ),
                off < table.len(),
                off + k <= table.len(),
                off as int + k <= nul_end(table, off as int),
                nul_end(table, off as int) <= table.len(),
                k <= name@.len(),
                name@.subrange(0, k as int) == table.subrange(off as int, off + k),
                nul_end(table, off as int) == nul_end(table, off + k),
            decreases name@.len() - k,
        {
            let p = off + k;
            if p >= self.strings.len() || self.strings[p] == 0 {
                assert(nul_end(table, p as int) == p as int);
                assert(string_at(table, off as int).len() == k);
                return false;
            }
            if self.strings[p] != name[k] {
                proof {
                    lemma_nul_end_bounds(table, p as int + 1);
                }
                assert(string_at(table, off as int)[k as int] != name@[k as int]);
                return false;
            }
            proof {
                lemma_nul_end_bounds(table, p as int + 1);
            }
            k = k + 1;
            assert(name@.subrange(0, k as int) == table.subrange(off as int, off + k));
        }
        let p = off + k;
        assert(name@.subrange(0, k as int) == name@);
        if p < self.strings.len() && self.strings[p] != 0 {
            assert(nul_end(table, p as int) > p) by {
                lemma_nul_end_bounds(table, p as int + 1);
            }
            assert(string_at(table, off as int).len() > name@.len());
            return false;
        }
        assert(string_at(table, off as int) == name@);
        true
    }

    /// The 0-based position of the first fragment of `kind` named `name`.
    fn find_named(&self, kind: FragmentKind, name: &Vec<u8>) -> (res: Option<usize>)
        ensures
            match res {
                Some(p) => self.first_named_from(kind, name@, 0) == Some(p as int),
                None => self.first_named_from(kind, name@, 0) is None,
            },
    {
        let mut p: usize = self.fragments.len();
        let mut found: Option<usize> = None;
        // Walk backwards so that the last hit is the first in file order.
        while p > 0
            invariant
                p <= self.count_spec(),
                match found {
                    Some(q) => self.first_named_from(kind, name@, p as int) == Some(q as int),
                    None => self.first_named_from(kind, name@, p as int) is None,
                },
            decreases p,
        {
            p = p - 1;
            let f = &self.fragments[p];
            if f.kind() == kind && self.string_equals(f.name_reference(), name) {
                found = Some(p);
            }
        }
        found
    }

    /// Resolves a typed reference to the 0-based position of a fragment of
    /// `kind`: by index (which must be in range and of that kind) or by name
    /// (the first fragment of that kind carrying the name).
    pub fn resolve(&self, r: FragmentRef, kind: FragmentKind) -> (res: Result<usize, WldError>)
        ensures
            match res {
                Ok(p) => self.spec_resolve(r, kind) == Ok::<int, WldError>(p as int),
                Err(e) => self.spec_resolve(r, kind) == Err::<int, WldError>(e),
            },
            res matches Ok(p) ==> p < self.count_spec() && self.frags()[p as int].spec_kind() == kind,
    {
        match r {
            FragmentRef::Index(i) => {
                if i == 0 || i as usize > self.fragments.len() {
                    Err(WldError::OutOfRange { index: i, count: self.fragments.len() })
                } else {
                    let actual = self.fragments[i as usize - 1].kind();
                    if actual != kind {
                        Err(WldError::TypeMismatch { index: i, expected: kind, actual })
                    } else {
                        Ok(i as usize - 1)
                    }
                }
            },
            FragmentRef::Name(s) => {
                match self.get_string(s) {
                    Err(e) => Err(e),
                    Ok(None) => Err(WldError::BrokenReference { via: r }),
                    Ok(Some(name)) => {
                        let found = self.find_named(kind, &name);
                        proof {
                            if let Some(p) = found {
                                self.lemma_first_named_is_named(kind, name@, 0);
                            }
                        }
                        match found {
                            Some(p) => Ok(p),
                            None => Err(WldError::BrokenReference { via: r }),
                        }
                    },
                }
            },
        }
    }

    proof fn lemma_first_named_is_named(&self, kind: FragmentKind, name: Seq<u8>, start: int)
        requires
            0 <= start,
        ensures
            self.first_named_from(kind, name, start) matches Some(p) ==> start <= p
                < self.count_spec() && self.is_named(p, kind, name),
        decreases self.count_spec() - start,
    {
        if start < self.count_spec() && !self.is_named(start, kind, name) {
            self.lemma_first_named_is_named(kind, name, start + 1);
        }
    }

    /// Every index that `indices_of_kind_upto` lists is in range and names
    /// a fragment of that kind.
    pub proof fn lemma_indices_of_kind(&self, kind: FragmentKind, n: int)
        requires
            0 <= n <= self.count_spec(),
            self.count_spec() <= usize::MAX,
        ensures
            forall|k: int|
                0 <= k < self.indices_of_kind_upto(kind, n).len() ==> {
                    let t = #[trigger] self.indices_of_kind_upto(kind, n)[k];
                    &&& 1 <= t <= n
                    &&& self.frags()[t - 1].spec_kind() == kind
                },
        decreases n,
    {
        if n > 0 {
            self.lemma_indices_of_kind(kind, n - 1);
            let prev = self.indices_of_kind_upto(kind, n - 1);
            let cur = self.indices_of_kind_upto(kind, n);
            assert forall|k: int| 0 <= k < cur.len() implies {
                let t = #[trigger] cur[k];
                &&& 1 <= t <= n
                &&& self.frags()[t - 1].spec_kind() == kind
            } by {
                if k < prev.len() {
                    assert(cur[k] == prev[k]);
                    assert(1 <= prev[k] <= n - 1);
                } else {
                    assert(cur[k] == n as usize);
                }
            }
        }
    }

    /// The 1-based indices of all fragments of `kind`, in file order.
    pub fn indices_of_kind(&self, kind: FragmentKind) -> (res: Vec<usize>)
        ensures
            res@ == self.indices_of_kind_upto(kind, self.count_spec()),
    {
        let mut out: Vec<usize> = Vec::new();
        let mut p: usize = 0;
        while p < self.fragments.len()
            invariant
                p <= self.count_spec(),
                out@ == self.indices_of_kind_upto(kind, p as int),
            decreases self.count_spec() - p,
        {
            if self.fragments[p].kind() == kind {
                out.push(p + 1);
            }
            p = p + 1;
        }
        out
    }
    /// What a string reference names, with "no name" read as the empty string.
    pub open spec fn name_or_empty(&self, r: StringReference) -> Result<Seq<u8>, WldError> {
        match self.spec_string(r) {
            Ok(Some(s)) => Ok(s),
            Ok(None) => Ok(Seq::empty()),
            Err(e) => Err(e),
        }
    }

    /// Resolves a string reference, reading "no name" as the empty string.
    pub fn name_of(&self, r: StringReference) -> (res: Result<Vec<u8>, WldError>)
        ensures
            match res {
                Ok(v) => self.name_or_empty(r) == Ok::<Seq<u8>, WldError>(v@),
                Err(e) => self.name_or_empty(r) == Err::<Seq<u8>, WldError>(e),
            },
    {
        match self.get_string(r) {
            Ok(Some(v)) => Ok(v),
            Ok(None) => Ok(Vec::new()),
            Err(e) => Err(e),
        }
    }

    /// The fragment that a typed reference resolves to (meaningful only when
    /// `spec_resolve` succeeds).
    pub open spec fn resolved(&self, r: FragmentRef, kind: FragmentKind) -> Fragment {
        self.fragments@[self.spec_resolve(r, kind)->Ok_0]
    }

    /// Resolves a reference to a track.
    pub fn get_track(&self, r: FragmentRef) -> (res: Result<&Track, WldError>)
        ensures
            match res {
                Ok(t) => self.spec_resolve(r, FragmentKind::Track) is Ok && self.resolved(
                    r,
                    FragmentKind::Track,
                ) == Fragment::Track(*t),
                Err(e) => self.spec_resolve(r, FragmentKind::Track) == Err::<int, WldError>(e),
            },
    {
        let p = self.resolve(r, FragmentKind::Track)?;
        match &self.fragments[p] {
            Fragment::Track(t) => Ok(t),
            _ => Err(WldError::BrokenReference { via: r }),
        }
    }

    /// Resolves a reference to a track definition.
    pub fn get_track_def(&self, r: FragmentRef) -> (res: Result<&TrackDef, WldError>)
        ensures
            match res {
                Ok(t) => self.spec_resolve(r, FragmentKind::TrackDef) is Ok && self.resolved(
                    r,
                    FragmentKind::TrackDef,
                ) == Fragment::TrackDef(*t),
                Err(e) => self.spec_resolve(r, FragmentKind::TrackDef) == Err::<int, WldError>(e),
            },
    {
        let p = self.resolve(r, FragmentKind::TrackDef)?;
        match &self.fragments[p] {
            Fragment::TrackDef(t) => Ok(t),
            _ => Err(WldError::BrokenReference { via: r }),
        }
    }

    /// Resolves a reference to a skeleton.
    pub fn get_hier_sprite(&self, r: FragmentRef) -> (res: Result<&HierarchicalSpriteDef, WldError>)
        ensures
            match res {
                Ok(t) => self.spec_resolve(r, FragmentKind::HierarchicalSpriteDef) is Ok
                    && self.resolved(r, FragmentKind::HierarchicalSpriteDef)
                    == Fragment::HierarchicalSpriteDef(*t),
                Err(e) => self.spec_resolve(r, FragmentKind::HierarchicalSpriteDef) == Err::<
                    int,
                    WldError,
                >(e),
            },
    {
        let p = self.resolve(r, FragmentKind::HierarchicalSpriteDef)?;
        match &self.fragments[p] {
            Fragment::HierarchicalSpriteDef(t) => Ok(t),
            _ => Err(WldError::BrokenReference { via: r }),
        }
    }

    /// Resolves a reference to a material.
    pub fn get_material(&self, r: FragmentRef) -> (res: Result<&MaterialDef, WldError>)
        ensures
            match res {
                Ok(t) => self.spec_resolve(r, FragmentKind::MaterialDef) is Ok && self.resolved(
                    r,
                    FragmentKind::MaterialDef,
                ) == Fragment::MaterialDef(*t),
                Err(e) => self.spec_resolve(r, FragmentKind::MaterialDef) == Err::<int, WldError>(e),
            },
    {
        let p = self.resolve(r, FragmentKind::MaterialDef)?;
        match &self.fragments[p] {
            Fragment::MaterialDef(t) => Ok(t),
            _ => Err(WldError::BrokenReference { via: r }),
        }
    }

    /// Resolves a reference to a material list.
    pub fn get_material_palette(&self, r: FragmentRef) -> (res: Result<&MaterialPalette, WldError>)
        ensures
            match res {
                Ok(t) => self.spec_resolve(r, FragmentKind::MaterialPalette) is Ok && self.resolved(
                    r,
                    FragmentKind::MaterialPalette,
                ) == Fragment::MaterialPalette(*t),
                Err(e) => self.spec_resolve(r, FragmentKind::MaterialPalette) == Err::<int, WldError>(
                    e,
                ),
            },
    {
        let p = self.resolve(r, FragmentKind::MaterialPalette)?;
        match &self.fragments[p] {
            Fragment::MaterialPalette(t) => Ok(t),
            _ => Err(WldError::BrokenReference { via: r }),
        }
    }

    /// Resolves a reference to a texture reference.
    pub fn get_simple_sprite(&self, r: FragmentRef) -> (res: Result<&SimpleSprite, WldError>)
        ensures
            match res {
                Ok(t) => self.spec_resolve(r, FragmentKind::SimpleSprite) is Ok && self.resolved(
                    r,
                    FragmentKind::SimpleSprite,
                ) == Fragment::SimpleSprite(*t),
                Err(e) => self.spec_resolve(r, FragmentKind::SimpleSprite) == Err::<int, WldError>(e),
            },
    {
        let p = self.resolve(r, FragmentKind::SimpleSprite)?;
        match &self.fragments[p] {
            Fragment::SimpleSprite(t) => Ok(t),
            _ => Err(WldError::BrokenReference { via: r }),
        }
    }

    /// Resolves a reference to a sprite definition.
    pub fn get_simple_sprite_def(&self, r: FragmentRef) -> (res: Result<&SimpleSpriteDef, WldError>)
        ensures
            match res {
                Ok(t) => self.spec_resolve(r, FragmentKind::SimpleSpriteDef) is Ok && self.resolved(
                    r,
                    FragmentKind::SimpleSpriteDef,
                ) == Fragment::SimpleSpriteDef(*t),
                Err(e) => self.spec_resolve(r, FragmentKind::SimpleSpriteDef) == Err::<int, WldError>(
                    e,
                ),
            },
    {
        let p = self.resolve(r, FragmentKind::SimpleSpriteDef)?;
        match &self.fragments[p] {
            Fragment::SimpleSpriteDef(t) => Ok(t),
            _ => Err(WldError::BrokenReference { via: r }),
        }
    }

    /// Resolves a reference to an image list.
    pub fn get_bm_info(&self, r: FragmentRef) -> (res: Result<&BmInfo, WldError>)
        ensures
            match res {
                Ok(t) => self.spec_resolve(r, FragmentKind::BmInfo) is Ok && self.resolved(
                    r,
                    FragmentKind::BmInfo,
                ) == Fragment::BmInfo(*t),
                Err(e) => self.spec_resolve(r, FragmentKind::BmInfo) == Err::<int, WldError>(e),
            },
    {
        let p = self.resolve(r, FragmentKind::BmInfo)?;
        match &self.fragments[p] {
            Fragment::BmInfo(t) => Ok(t),
            _ => Err(WldError::BrokenReference { via: r }),
        }
    }
}

} // verus!
