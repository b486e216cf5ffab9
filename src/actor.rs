use vstd::prelude::*;

use crate::document::Document;
use crate::error::WldError;
use crate::fragment::{
    Actor, ActorDef, DmRgbTrack, DmRgbTrackDef, Fragment, FragmentKind, FragmentRef, Location,
};
use crate::material::S3DMaterial;
use crate::mesh::{is_mesh_kind, S3DMesh};
use crate::skeleton::S3DHierSprite;

verus! {

/// A typed handle on one fragment, chosen by the fragment's kind.
#[derive(Clone, Copy, Debug, PartialEq, Eq, Structural)]
pub enum FragmentHandle {
    Mesh(S3DMesh),
    Material(S3DMaterial),
    ActorDef(S3DActorDef),
    Actor(S3DActorInstance),
    HierSprite(S3DHierSprite),
    Unknown(u32),
}

/// The handle that suits the kind of the fragment at `index`.
pub open spec fn handle_spec(k: FragmentKind, index: u32) -> FragmentHandle {
    if is_mesh_kind(k) {
        FragmentHandle::Mesh(S3DMesh { index })
    } else if k == FragmentKind::MaterialDef {
        FragmentHandle::Material(S3DMaterial { index })
    } else if k == FragmentKind::ActorDef {
        FragmentHandle::ActorDef(S3DActorDef { index })
    } else if k == FragmentKind::Actor {
        FragmentHandle::Actor(S3DActorInstance { index })
    } else if k == FragmentKind::HierarchicalSpriteDef {
        FragmentHandle::HierSprite(S3DHierSprite { index })
    } else {
        FragmentHandle::Unknown(index)
    }
}

/// A handle on the fragment at the given 1-based index, typed by its kind.
pub fn gd_from_frag(doc: &Document, index: u32) -> (res: Result<FragmentHandle, WldError>)
    ensures
        res is Ok <==> 1 <= index <= doc.count_spec(),
        res matches Ok(h) ==> h == handle_spec(doc.frags()[index - 1].spec_kind(), index),
        res matches Err(e) ==> e == (WldError::OutOfRange {
            index,
            count: doc.fragments@.len() as usize,
        }),
{
    let f = doc.get_by_index(index)?;
    let h = match f.kind() {
        FragmentKind::DmSpriteDef | FragmentKind::DmSpriteDef2 => FragmentHandle::Mesh(
            S3DMesh { index },
        ),
        FragmentKind::MaterialDef => FragmentHandle::Material(S3DMaterial { index }),
        FragmentKind::ActorDef => FragmentHandle::ActorDef(S3DActorDef { index }),
        FragmentKind::Actor => FragmentHandle::Actor(S3DActorInstance { index }),
        FragmentKind::HierarchicalSpriteDef => FragmentHandle::HierSprite(S3DHierSprite { index }),
        _ => FragmentHandle::Unknown(index),
    };
    Ok(h)
}

pub open spec fn actor_def_of(f: Fragment) -> ActorDef {
    match f {
        Fragment::ActorDef(a) => a,
        _ => arbitrary(),
    }
}

pub open spec fn actor_of(f: Fragment) -> Actor {
    match f {
        Fragment::Actor(a) => a,
        _ => arbitrary(),
    }
}

/// The meshes among the first `k` parts of an actor definition: a part
/// that is a mesh reference to a mesh by index gives that mesh; any other
/// part is passed over.
pub open spec fn actor_meshes_upto(doc: Document, parts: Seq<u32>, k: int) -> Seq<u32>
    decreases k,
{
    if k <= 0 {
        Seq::empty()
    } else {
        let prev = actor_meshes_upto(doc, parts, k - 1);
        match doc.spec_resolve(FragmentRef::Index(parts[k - 1]), FragmentKind::DmSprite) {
            Ok(p) => match doc.frags()[p] {
                Fragment::DmSprite(s) => match s.reference {
                    FragmentRef::Index(i) => if 1 <= i <= doc.count_spec() && is_mesh_kind(
                        doc.frags()[i - 1].spec_kind(),
                    ) {
                        prev.push(i)
                    } else {
                        prev
                    },
                    FragmentRef::Name(_) => prev,
                },
                _ => prev,
            },
            Err(_) => prev,
        }
    }
}

/// An actor definition: a handle on its fragment in a document.
#[derive(Clone, Copy, Debug, PartialEq, Eq, Structural)]
pub struct S3DActorDef {
    pub index: u32,
}

impl S3DActorDef {
    pub open spec fn valid_in(&self, doc: Document) -> bool {
        &&& 1 <= self.index <= doc.count_spec()
        &&& doc.frags()[self.index - 1].spec_kind() == FragmentKind::ActorDef
    }

    pub open spec fn def_in(&self, doc: Document) -> ActorDef {
        actor_def_of(doc.frags()[self.index - 1])
    }

    /// Opens the actor definition at the given 1-based index.
    pub fn load(doc: &Document, index: u32) -> (res: Result<S3DActorDef, WldError>)
        ensures
            match res {
                Ok(h) => h.index == index && h.valid_in(*doc),
                Err(e) => doc.spec_resolve(FragmentRef::Index(index), FragmentKind::ActorDef) == Err::<
                    int,
                    WldError,
                >(e),
            },
    {
        let _p = doc.resolve(FragmentRef::Index(index), FragmentKind::ActorDef)?;
        Ok(S3DActorDef { index })
    }

    fn def<'a>(&self, doc: &'a Document) -> (d: &'a ActorDef)
        requires
            self.valid_in(*doc),
        ensures
            *d == self.def_in(*doc),
        decreases 0nat,
    {
        match &doc.fragments[self.index as usize - 1] {
            Fragment::ActorDef(d) => d,
            _ => {
                // `valid_in` fixes the kind, so this arm is never taken.
                assert(false);
                self.def(doc)
            },
        }
    }

    /// The actor definition's name.
    pub fn name(&self, doc: &Document) -> (res: Result<Vec<u8>, WldError>)
        requires
            self.valid_in(*doc),
        ensures
            match res {
                Ok(v) => doc.name_or_empty(self.def_in(*doc).name_reference) == Ok::<
                    Seq<u8>,
                    WldError,
                >(v@),
                Err(e) => doc.name_or_empty(self.def_in(*doc).name_reference) == Err::<
                    Seq<u8>,
                    WldError,
                >(e),
            },
    {
        doc.name_of(self.def(doc).name_reference)
    }

    /// The name of the actor's callback.
    pub fn callback_name(&self, doc: &Document) -> (res: Result<Vec<u8>, WldError>)
        requires
            self.valid_in(*doc),
        ensures
            match res {
                Ok(v) => doc.name_or_empty(self.def_in(*doc).callback_name_reference) == Ok::<
                    Seq<u8>,
                    WldError,
                >(v@),
                Err(e) => doc.name_or_empty(self.def_in(*doc).callback_name_reference) == Err::<
                    Seq<u8>,
                    WldError,
                >(e),
            },
    {
        doc.name_of(self.def(doc).callback_name_reference)
    }

    /// The meshes the actor is made of, by 1-based index.
    pub fn meshes(&self, doc: &Document) -> (r: Vec<u32>)
        requires
            self.valid_in(*doc),
        ensures
            r@ == actor_meshes_upto(
                *doc,
                self.def_in(*doc).fragment_references@,
                self.def_in(*doc).fragment_references@.len() as int,
            ),
    {
        let parts = &self.def(doc).fragment_references;
        let mut out: Vec<u32> = Vec::new();
        let mut k: usize = 0;
        while k < parts.len()
            invariant
                k <= parts@.len(),
                out@ == actor_meshes_upto(*doc, parts@, k as int),
            decreases parts@.len() - k,
        {
            match doc.resolve(FragmentRef::Index(parts[k]), FragmentKind::DmSprite) {
                Ok(p) => match &doc.fragments[p] {
                    Fragment::DmSprite(s) => match S3DMesh::from_reference(doc, s) {
                        Some(m) => out.push(m.index),
                        None => {},
                    },
                    _ => {},
                },
                Err(_) => {},
            }
            k = k + 1;
        }
        out
    }
}

/// The vertex colors of an actor instance: none without a reference or when
/// the reference does not lead to a color track; an error when the track
/// does not lead to its color data.
pub open spec fn vertex_colors_spec(doc: Document, a: Actor) -> Result<Seq<u32>, WldError> {
    match a.vertex_color_reference {
        None => Ok(Seq::empty()),
        Some(r) => match doc.spec_resolve(r, FragmentKind::DmRgbTrack) {
            Err(_) => Ok(Seq::empty()),
            Ok(p) => {
                let t = match doc.frags()[p] {
                    Fragment::DmRgbTrack(t) => t,
                    _ => arbitrary(),
                };
                match doc.spec_resolve(t.reference, FragmentKind::DmRgbTrackDef) {
                    Err(_) => Err(WldError::BrokenReference { via: t.reference }),
                    Ok(q) => match doc.frags()[q] {
                        Fragment::DmRgbTrackDef(d) => Ok(d.vertex_colors@),
                        _ => arbitrary(),
                    },
                }
            },
        },
    }
}

/// An actor instance (a placed object): a handle on its fragment.
#[derive(Clone, Copy, Debug, PartialEq, Eq, Structural)]
pub struct S3DActorInstance {
    pub index: u32,
}

impl S3DActorInstance {
    pub open spec fn valid_in(&self, doc: Document) -> bool {
        &&& 1 <= self.index <= doc.count_spec()
        &&& doc.frags()[self.index - 1].spec_kind() == FragmentKind::Actor
    }

    pub open spec fn def_in(&self, doc: Document) -> Actor {
        actor_of(doc.frags()[self.index - 1])
    }

    /// Opens the actor instance at the given 1-based index.
    pub fn load(doc: &Document, index: u32) -> (res: Result<S3DActorInstance, WldError>)
        ensures
            match res {
                Ok(h) => h.index == index && h.valid_in(*doc),
                Err(e) => doc.spec_resolve(FragmentRef::Index(index), FragmentKind::Actor) == Err::<
                    int,
                    WldError,
                >(e),
            },
    {
        let _p = doc.resolve(FragmentRef::Index(index), FragmentKind::Actor)?;
        Ok(S3DActorInstance { index })
    }

    fn def<'a>(&self, doc: &'a Document) -> (d: &'a Actor)
        requires
            self.valid_in(*doc),
        ensures
            *d == self.def_in(*doc),
        decreases 0nat,
    {
        match &doc.fragments[self.index as usize - 1] {
            Fragment::Actor(d) => d,
            _ => {
                // `valid_in` fixes the kind, so this arm is never taken.
                assert(false);
                self.def(doc)
            },
        }
    }

    /// The instance's own name.
    pub fn name(&self, doc: &Document) -> (res: Result<Vec<u8>, WldError>)
        requires
            self.valid_in(*doc),
        ensures
            match res {
                Ok(v) => doc.name_or_empty(self.def_in(*doc).name_reference) == Ok::<
                    Seq<u8>,
                    WldError,
                >(v@),
                Err(e) => doc.name_or_empty(self.def_in(*doc).name_reference) == Err::<
                    Seq<u8>,
                    WldError,
                >(e),
            },
    {
        doc.name_of(self.def(doc).name_reference)
    }

    /// The name of the actor definition this instance places; empty when
    /// the reference names nothing (it may then index a definition, see
    /// `zone_actordef`).
    pub fn actordef_name(&self, doc: &Document) -> (r: Vec<u8>)
        requires
            self.valid_in(*doc),
        ensures
            r@ == match doc.spec_string(self.def_in(*doc).actor_def_reference) {
                Ok(Some(n)) => n,
                _ => Seq::<u8>::empty(),
            },
    {
        match doc.get_string(self.def(doc).actor_def_reference) {
            Ok(Some(n)) => n,
            _ => Vec::new(),
        }
    }

    /// In a zone document the definition is in the same document, and the
    /// reference is its 1-based index: a handle on it, or `None` when the
    /// reference is not positive.
    pub fn zone_actordef(&self, doc: &Document) -> (res: Result<Option<FragmentHandle>, WldError>)
        requires
            self.valid_in(*doc),
        ensures
            ({
                let v = self.def_in(*doc).actor_def_reference.0;
                if v <= 0 {
                    res == Ok::<Option<FragmentHandle>, WldError>(None)
                } else if v > doc.count_spec() {
                    res == Err::<Option<FragmentHandle>, WldError>(
                        WldError::OutOfRange { index: v as u32, count: doc.fragments@.len() as usize },
                    )
                } else {
                    res == Ok::<Option<FragmentHandle>, WldError>(
                        Some(handle_spec(doc.frags()[v - 1].spec_kind(), v as u32)),
                    )
                }
            }),
    {
        let v = self.def(doc).actor_def_reference.0;
        if v <= 0 {
            return Ok(None);
        }
        let h = gd_from_frag(doc, v as u32)?;
        Ok(Some(h))
    }

    /// The per-vertex colors this instance applies to its actor's meshes.
    pub fn vertex_colors(&self, doc: &Document) -> (res: Result<Vec<u32>, WldError>)
        requires
            self.valid_in(*doc),
        ensures
            match res {
                Ok(v) => vertex_colors_spec(*doc, self.def_in(*doc)) == Ok::<Seq<u32>, WldError>(v@),
                Err(e) => vertex_colors_spec(*doc, self.def_in(*doc)) == Err::<Seq<u32>, WldError>(e),
            },
    {
        let r = match self.def(doc).vertex_color_reference {
            None => {
                return Ok(Vec::new());
            },
            Some(r) => r,
        };
        let p = match doc.resolve(r, FragmentKind::DmRgbTrack) {
            Ok(p) => p,
            Err(_) => {
                return Ok(Vec::new());
            },
        };
        let t: &DmRgbTrack = match &doc.fragments[p] {
            Fragment::DmRgbTrack(t) => t,
            _ => {
                return Err(WldError::MalformedInput);
            },
        };
        let q = match doc.resolve(t.reference, FragmentKind::DmRgbTrackDef) {
            Ok(q) => q,
            Err(_) => {
                return Err(WldError::BrokenReference { via: t.reference });
            },
        };
        let d: &DmRgbTrackDef = match &doc.fragments[q] {
            Fragment::DmRgbTrackDef(d) => d,
            _ => {
                return Err(WldError::MalformedInput);
            },
        };
        let mut out: Vec<u32> = Vec::new();
        let mut i: usize = 0;
        while i < d.vertex_colors.len()
            invariant
                i <= d.vertex_colors@.len(),
                out@ == d.vertex_colors@.subrange(0, i as int),
            decreases d.vertex_colors@.len() - i,
        {
            out.push(d.vertex_colors[i]);
            i = i + 1;
            assert(out@ == d.vertex_colors@.subrange(0, i as int));
        }
        assert(d.vertex_colors@.subrange(0, i as int) == d.vertex_colors@);
        Ok(out)
    }

    /// Where the instance stands and how it is turned (bit patterns).
    pub fn location(&self, doc: &Document) -> (r: Option<Location>)
        requires
            self.valid_in(*doc),
        ensures
            r == self.def_in(*doc).location,
    {
        self.def(doc).location
    }

    /// The instance's scale factor (a bit pattern), if it states one.
    pub fn scale(&self, doc: &Document) -> (r: Option<u32>)
        requires
            self.valid_in(*doc),
        ensures
            r == self.def_in(*doc).scale_factor,
    {
        self.def(doc).scale_factor
    }
}

} // verus!
