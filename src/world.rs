use vstd::prelude::*;

use crate::actor::{gd_from_frag, handle_spec, FragmentHandle, S3DActorDef, S3DActorInstance};
use crate::document::Document;
use crate::error::WldError;
use crate::fragment::FragmentKind;
use crate::material::S3DMaterial;
use crate::mesh::{meshes, mesh_indices_upto, S3DMesh};
use crate::skeleton::S3DHierSprite;

verus! {

/// The 1-based indices of the fragments of `kind`, as integers.
pub open spec fn kind_indices(doc: Document, kind: FragmentKind) -> Seq<int> {
    doc.indices_of_kind_upto(kind, doc.count_spec()).map_values(|x: usize| x as int)
}

fn material_handle(i: u32) -> (h: S3DMaterial)
    ensures
        h.index == i,
{
    S3DMaterial { index: i }
}

fn actordef_handle(i: u32) -> (h: S3DActorDef)
    ensures
        h.index == i,
{
    S3DActorDef { index: i }
}

fn actor_handle(i: u32) -> (h: S3DActorInstance)
    ensures
        h.index == i,
{
    S3DActorInstance { index: i }
}

fn hiersprite_handle(i: u32) -> (h: S3DHierSprite)
    ensures
        h.index == i,
{
    S3DHierSprite { index: i }
}

/// Makes one handle per index, in order.
fn wrap_indices<H, F: Fn(u32) -> H>(idx: &Vec<u32>, mk: F) -> (r: Vec<H>)
    requires
        forall|i: u32| mk.requires((i,)),
    ensures
        r@.len() == idx@.len(),
        forall|k: int| 0 <= k < r@.len() ==> mk.ensures((idx@[k],), #[trigger] r@[k]),
{
    let mut out: Vec<H> = Vec::new();
    let mut k: usize = 0;
    while k < idx.len()
        invariant
            forall|i: u32| mk.requires((i,)),
            k <= idx@.len(),
            out@.len() == k,
            forall|j: int| 0 <= j < k ==> mk.ensures((idx@[j],), #[trigger] out@[j]),
        decreases idx@.len() - k,
    {
        out.push(mk(idx[k]));
        k = k + 1;
    }
    out
}

impl Document {
    fn indices_u32(&self, kind: FragmentKind) -> (r: Vec<u32>)
        requires
            self.count_spec() < 0x1_0000_0000,
        ensures
            r@.map_values(|x: u32| x as int) == kind_indices(*self, kind),
    {
        let idx = self.indices_of_kind(kind);
        let count = self.fragments.len();
        proof {
            self.lemma_indices_of_kind(kind, self.count_spec());
        }
        let mut out: Vec<u32> = Vec::new();
        let mut i: usize = 0;
        while i < idx.len()
            invariant
                count == self.count_spec(),
                count < 0x1_0000_0000,
                idx@ == self.indices_of_kind_upto(kind, self.count_spec()),
                forall|j: int|
                    0 <= j < idx@.len() ==> {
                        let t = #[trigger] idx@[j];
                        &&& 1 <= t <= count
                        &&& self.frags()[t - 1].spec_kind() == kind
                    },
                i <= idx@.len(),
                out@.map_values(|x: u32| x as int) == idx@.subrange(0, i as int).map_values(
                    |x: usize| x as int,
                ),
            decreases idx@.len() - i,
        {
            let ghost before = out@;
            assert(1 <= idx@[i as int] <= count);
            out.push(idx[i] as u32);
            assert(out@.map_values(|x: u32| x as int) == before.map_values(|x: u32| x as int).push(
                idx@[i as int] as int,
            ));
            assert(idx@.subrange(0, i + 1) == idx@.subrange(0, i as int).push(idx@[i as int]));
            i = i + 1;
        }
        assert(idx@.subrange(0, i as int) == idx@);
        out
    }

    /// Every mesh (of either layout), in file order.
    pub fn meshes(&self) -> (r: Vec<S3DMesh>)
        requires
            self.count_spec() < 0x1_0000_0000,
        ensures
            r@.map_values(|m: S3DMesh| m.index) == mesh_indices_upto(*self, self.count_spec()),
    {
        meshes(self)
    }

    /// Every material, in file order.
    pub fn materials(&self) -> (r: Vec<S3DMaterial>)
        requires
            self.count_spec() < 0x1_0000_0000,
        ensures
            r@.map_values(|m: S3DMaterial| m.index as int) == kind_indices(
                *self,
                FragmentKind::MaterialDef,
            ),
    {
        let idx = self.indices_u32(FragmentKind::MaterialDef);
        let r = wrap_indices(&idx, material_handle);
        assert(r@.map_values(|m: S3DMaterial| m.index as int) =~= idx@.map_values(|x: u32| x as int));
        r
    }

    /// Every actor definition, in file order.
    pub fn actordefs(&self) -> (r: Vec<S3DActorDef>)
        requires
            self.count_spec() < 0x1_0000_0000,
        ensures
            r@.map_values(|m: S3DActorDef| m.index as int) == kind_indices(
                *self,
                FragmentKind::ActorDef,
            ),
    {
        let idx = self.indices_u32(FragmentKind::ActorDef);
        let r = wrap_indices(&idx, actordef_handle);
        assert(r@.map_values(|m: S3DActorDef| m.index as int) =~= idx@.map_values(|x: u32| x as int));
        r
    }

    /// Every actor instance, in file order.
    pub fn actorinstances(&self) -> (r: Vec<S3DActorInstance>)
        requires
            self.count_spec() < 0x1_0000_0000,
        ensures
            r@.map_values(|m: S3DActorInstance| m.index as int) == kind_indices(
                *self,
                FragmentKind::Actor,
            ),
    {
        let idx = self.indices_u32(FragmentKind::Actor);
        let r = wrap_indices(&idx, actor_handle);
        assert(r@.map_values(|m: S3DActorInstance| m.index as int) =~= idx@.map_values(|x: u32| x as int));
        r
    }

    /// Every skeleton, in file order.
    pub fn hiersprites(&self) -> (r: Vec<S3DHierSprite>)
        requires
            self.count_spec() < 0x1_0000_0000,
        ensures
            r@.map_values(|m: S3DHierSprite| m.index as int) == kind_indices(
                *self,
                FragmentKind::HierarchicalSpriteDef,
            ),
    {
        let idx = self.indices_u32(FragmentKind::HierarchicalSpriteDef);
        let r = wrap_indices(&idx, hiersprite_handle);
        assert(r@.map_values(|m: S3DHierSprite| m.index as int) =~= idx@.map_values(|x: u32| x as int));
        r
    }

    /// A handle on the fragment at the given 1-based index, typed by its kind.
    pub fn at(&self, index: u32) -> (res: Result<FragmentHandle, WldError>)
        ensures
            res is Ok <==> 1 <= index <= self.count_spec(),
            res matches Ok(h) ==> h == handle_spec(self.frags()[index - 1].spec_kind(), index),
            res matches Err(e) ==> e == (WldError::OutOfRange {
                index,
                count: self.fragments@.len() as usize,
            }),
    {
        gd_from_frag(self, index)
    }
}

} // verus!
