use vstd::prelude::*;

use crate::document::Document;
use crate::error::WldError;
use crate::fragment::{BmInfo, Fragment, FragmentKind, FragmentRef, MaterialDef, SimpleSpriteDef};

verus! {

/// The render-method bit that marks a user-defined shader code.
pub const USER_DEFINED_RENDER_METHOD: u32 = 0x8000_0000;

/// The lower-case form that `str::to_lowercase` gives a file name read as
/// UTF-8 (a name whose bytes are not UTF-8 is left as it is).
pub uninterp spec fn lower_of(s: Seq<u8>) -> Seq<u8>;

/// Relies on `str::to_lowercase`: the Unicode lower-case form of a file
/// name, a function of its characters alone. Archives store file names in
/// lower case while image lists may not.
#[verifier::external_body]
fn lowercase_name(name: &Vec<u8>) -> (r: Vec<u8>)
    ensures
        r@ == lower_of(name@),
{
    match std::str::from_utf8(name) {
        Ok(s) => s.to_lowercase().into_bytes(),
        Err(_) => name.clone(),
    }
}

pub open spec fn material_of(f: Fragment) -> MaterialDef {
    match f {
        Fragment::MaterialDef(m) => m,
        _ => arbitrary(),
    }
}

pub open spec fn sprite_def_of(f: Fragment) -> SimpleSpriteDef {
    match f {
        Fragment::SimpleSpriteDef(m) => m,
        _ => arbitrary(),
    }
}

pub open spec fn bm_info_of(f: Fragment) -> BmInfo {
    match f {
        Fragment::BmInfo(m) => m,
        _ => arbitrary(),
    }
}

/// The sprite definition behind a material: material -> texture reference
/// -> sprite definition.
pub open spec fn sprite_def_spec(doc: Document, m: MaterialDef) -> Result<SimpleSpriteDef, WldError> {
    match doc.spec_resolve(m.reference, FragmentKind::SimpleSprite) {
        Err(_) => Err(WldError::BrokenReference { via: m.reference }),
        Ok(p) => {
            let r = match doc.frags()[p] {
                Fragment::SimpleSprite(s) => s.reference,
                _ => arbitrary(),
            };
            match doc.spec_resolve(r, FragmentKind::SimpleSpriteDef) {
                Err(_) => Err(WldError::BrokenReference { via: r }),
                Ok(q) => Ok(sprite_def_of(doc.frags()[q])),
            }
        },
    }
}

/// The lower-cased file names of the image lists among `refs[..k]`, in order.
pub open spec fn file_names_upto(doc: Document, refs: Seq<FragmentRef>, k: int) -> Result<
    Seq<Seq<u8>>,
    WldError,
>
    decreases k,
{
    if k <= 0 {
        Ok(Seq::empty())
    } else {
        match file_names_upto(doc, refs, k - 1) {
            Err(e) => Err(e),
            Ok(names) => match doc.spec_resolve(refs[k - 1], FragmentKind::BmInfo) {
                Err(_) => Err(WldError::BrokenReference { via: refs[k - 1] }),
                Ok(p) => Ok(
                    names + bm_info_of(doc.frags()[p]).entries@.map_values(
                        |e: Vec<u8>| lower_of(e@),
                    ),
                ),
            },
        }
    }
}

/// A material's texture file names (several for an animated texture).
pub open spec fn texture_filenames_spec(doc: Document, m: MaterialDef) -> Result<Seq<Seq<u8>>, WldError> {
    match sprite_def_spec(doc, m) {
        Err(e) => Err(e),
        Ok(s) => file_names_upto(doc, s.frame_references@, s.frame_references@.len() as int),
    }
}

proof fn lemma_file_names_err_stays(doc: Document, refs: Seq<FragmentRef>, k: int, n: int)
    requires
        0 < k <= n,
        file_names_upto(doc, refs, k) is Err,
    ensures
        file_names_upto(doc, refs, n) == file_names_upto(doc, refs, k),
    decreases n - k,
{
    if k < n {
        lemma_file_names_err_stays(doc, refs, k, n - 1);
    }
}

/// A material: a handle on its fragment in a document.
#[derive(Clone, Copy, Debug, PartialEq, Eq, Structural)]
pub struct S3DMaterial {
    pub index: u32,
}

impl S3DMaterial {
    pub open spec fn valid_in(&self, doc: Document) -> bool {
        &&& 1 <= self.index <= doc.count_spec()
        &&& doc.frags()[self.index - 1].spec_kind() == FragmentKind::MaterialDef
    }

    pub open spec fn def_in(&self, doc: Document) -> MaterialDef {
        material_of(doc.frags()[self.index - 1])
    }

    /// Opens the material at the given 1-based index.
    pub fn load(doc: &Document, index: u32) -> (res: Result<S3DMaterial, WldError>)
        ensures
            match res {
                Ok(h) => h.index == index && h.valid_in(*doc),
                Err(e) => doc.spec_resolve(FragmentRef::Index(index), FragmentKind::MaterialDef)
                    == Err::<int, WldError>(e),
            },
    {
        let _p = doc.resolve(FragmentRef::Index(index), FragmentKind::MaterialDef)?;
        Ok(S3DMaterial { index })
    }

    fn def<'a>(&self, doc: &'a Document) -> (d: &'a MaterialDef)
        requires
            self.valid_in(*doc),
        ensures
            *d == self.def_in(*doc),
        decreases 0nat,
    {
        match &doc.fragments[self.index as usize - 1] {
            Fragment::MaterialDef(d) => d,
            _ => {
                // `valid_in` fixes the kind, so this arm is never taken.
                assert(false);
                self.def(doc)
            },
        }
    }

    /// The material's name.
    pub fn name(&self, doc: &Document) -> (res: Result<Vec<u8>, WldError>)
        requires
            self.valid_in(*doc),
        ensures
            match res {
                Ok(v) => doc.name_or_empty(self.def_in(*doc).name_reference) == Ok::<
                    Seq<u8>,
                    WldError,
                >(v@),
                Err(e) => doc.name_or_empty(self.def_in(*doc).name_reference) == Err::<
                    Seq<u8>,
                    WldError,
                >(e),
            },
    {
        doc.name_of(self.def(doc).name_reference)
    }

    /// The material's flags.
    pub fn flags(&self, doc: &Document) -> (r: u32)
        requires
            self.valid_in(*doc),
        ensures
            r == self.def_in(*doc).flags,
    {
        self.def(doc).flags
    }

    /// Whether the material is drawn: render method 0 marks surfaces that
    /// only collide.
    pub fn visible(&self, doc: &Document) -> (r: bool)
        requires
            self.valid_in(*doc),
        ensures
            r == (self.def_in(*doc).render_method != 0),
    {
        self.def(doc).render_method != 0
    }

    /// The shader code of a user-defined render method, else 0.
    pub fn shader_type_id(&self, doc: &Document) -> (r: u32)
        requires
            self.valid_in(*doc),
        ensures
            r == (if self.def_in(*doc).render_method & USER_DEFINED_RENDER_METHOD != 0 {
                self.def_in(*doc).render_method & !USER_DEFINED_RENDER_METHOD
            } else {
                0
            }),
    {
        let m = self.def(doc).render_method;
        if m & USER_DEFINED_RENDER_METHOD != 0 {
            m & !USER_DEFINED_RENDER_METHOD
        } else {
            0
        }
    }

    fn sprite_def<'a>(&self, doc: &'a Document) -> (res: Result<&'a SimpleSpriteDef, WldError>)
        requires
            self.valid_in(*doc),
        ensures
            match res {
                Ok(s) => sprite_def_spec(*doc, self.def_in(*doc)) == Ok::<SimpleSpriteDef, WldError>(*s),
                Err(e) => sprite_def_spec(*doc, self.def_in(*doc)) == Err::<SimpleSpriteDef, WldError>(
                    e,
                ),
            },
    {
        let m = self.def(doc);
        let sprite = match doc.get_simple_sprite(m.reference) {
            Ok(s) => s,
            Err(_) => {
                return Err(WldError::BrokenReference { via: m.reference });
            },
        };
        match doc.get_simple_sprite_def(sprite.reference) {
            Ok(d) => Ok(d),
            Err(_) => Err(WldError::BrokenReference { via: sprite.reference }),
        }
    }

    /// The delay between the frames of an animated texture, in
    /// milliseconds; `None` when the sprite states none.
    pub fn delay_ms(&self, doc: &Document) -> (res: Result<Option<u32>, WldError>)
        requires
            self.valid_in(*doc),
        ensures
            match res {
                Ok(d) => sprite_def_spec(*doc, self.def_in(*doc)) is Ok && d == sprite_def_spec(
                    *doc,
                    self.def_in(*doc),
                )->Ok_0.sleep,
                Err(e) => sprite_def_spec(*doc, self.def_in(*doc)) == Err::<SimpleSpriteDef, WldError>(
                    e,
                ),
            },
    {
        let s = self.sprite_def(doc)?;
        Ok(s.sleep)
    }

    /// The texture file names, lower-cased, in frame order.
    pub fn texture_filenames(&self, doc: &Document) -> (res: Result<Vec<Vec<u8>>, WldError>)
        requires
            self.valid_in(*doc),
        ensures
            match res {
                Ok(v) => texture_filenames_spec(*doc, self.def_in(*doc)) is Ok && v@.map_values(
                    |e: Vec<u8>| e@,
                ) == texture_filenames_spec(*doc, self.def_in(*doc))->Ok_0,
                Err(e) => texture_filenames_spec(*doc, self.def_in(*doc)) == Err::<
                    Seq<Seq<u8>>,
                    WldError,
                >(e),
            },
    {
        let s = self.sprite_def(doc)?;
        let refs = &s.frame_references;
        let n = refs.len();
        let mut out: Vec<Vec<u8>> = Vec::new();
        let mut k: usize = 0;
        while k < n
            invariant
                n == refs@.len(),
                sprite_def_spec(*doc, self.def_in(*doc)) == Ok::<SimpleSpriteDef, WldError>(*s),
                *refs == s.frame_references,
                k <= n,
                file_names_upto(*doc, refs@, k as int) is Ok,
                out@.map_values(|e: Vec<u8>| e@) == file_names_upto(*doc, refs@, k as int)->Ok_0,
            decreases n - k,
        {
            let list = match doc.get_bm_info(refs[k]) {
                Ok(b) => b,
                Err(_) => {
                    let e = WldError::BrokenReference { via: refs[k] };
                    assert(file_names_upto(*doc, refs@, k as int + 1) == Err::<
                        Seq<Seq<u8>>,
                        WldError,
                    >(e));
                    proof {
                        lemma_file_names_err_stays(*doc, refs@, k as int + 1, n as int);
                    }
                    return Err(e);
                },
            };
            let ghost before = out@.map_values(|e: Vec<u8>| e@);
            let ghost added = list.entries@.map_values(|e: Vec<u8>| lower_of(e@));
            let mut j: usize = 0;
            while j < list.entries.len()
                invariant
                    j <= list.entries@.len(),
                    out@.map_values(|e: Vec<u8>| e@) == before + added.subrange(0, j as int),
                    added == list.entries@.map_values(|e: Vec<u8>| lower_of(e@)),
                decreases list.entries@.len() - j,
            {
                let l = lowercase_name(&list.entries[j]);
                let ghost prev_out = out@;
                out.push(l);
                assert(out@.map_values(|e: Vec<u8>| e@) == prev_out.map_values(|e: Vec<u8>| e@).push(
                    l@,
                ));
                assert(added.subrange(0, j + 1) == added.subrange(0, j as int).push(added[j as int]));
                j = j + 1;
                assert(out@.map_values(|e: Vec<u8>| e@) == before + added.subrange(0, j as int));
            }
            assert(added.subrange(0, j as int) == added);
            k = k + 1;
        }
        Ok(out)
    }
    /// The file name of the material's (first) texture; a material without
    /// one has a broken texture reference.
    pub fn texture_filename(&self, doc: &Document) -> (res: Result<Vec<u8>, WldError>)
        requires
            self.valid_in(*doc),
        ensures
            match texture_filenames_spec(*doc, self.def_in(*doc)) {
                Err(e) => res == Err::<Vec<u8>, WldError>(e),
                Ok(names) => if names.len() == 0 {
                    res == Err::<Vec<u8>, WldError>(
                        WldError::BrokenReference { via: self.def_in(*doc).reference },
                    )
                } else {
                    res is Ok && res->Ok_0@ == names[0]
                },
            },
    {
        let mut names = self.texture_filenames(doc)?;
        if names.len() == 0 {
            return Err(WldError::BrokenReference { via: self.def(doc).reference });
        }
        let r = names.swap_remove(0);
        Ok(r)
    }
}

} // verus!
