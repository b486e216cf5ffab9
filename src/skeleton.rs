use vstd::prelude::*;

use crate::document::Document;
use crate::error::WldError;
use crate::fragment::{Dag, Fragment, FragmentKind, FragmentRef, HierarchicalSpriteDef, Track, TrackDef};
use crate::mesh::{is_mesh_kind, S3DMesh};
use crate::names::{
    actor_tag, actor_tag_spec, bone_name_from_dag, bone_name_spec, naming_for_spec, starts_with,
    starts_with_spec, BoneNaming,
};
use crate::track::{frame_count_spec, frame_spec, Keyframe, Rotation, Translation};

verus! {

/// The largest number of joints a skeleton may have: bone and parent
/// indices are 32-bit signed values.
pub const MAX_BONES: usize = 0x7fff_ffff;

/// The parent that the first `k` joints assign to joint `c`: the last of
/// them that lists `c` among its children, or -1 if none does.
pub open spec fn parent_upto(dags: Seq<Dag>, c: int, k: int) -> int
    decreases k,
{
    if k <= 0 {
        -1
    } else if dags[k - 1].sub_dags@.contains(c as u32) {
        k - 1
    } else {
        parent_upto(dags, c, k - 1)
    }
}

/// The parent of joint `c`; when several joints list it, the last one wins.
pub open spec fn parent_of(dags: Seq<Dag>, c: int) -> int {
    parent_upto(dags, c, dags.len() as int)
}

/// Whether position `(i2, j2)` (entry `j2` of joint `i2`'s child list)
/// comes before `(i, j)` in the order the lists are read.
pub open spec fn listed_before(dags: Seq<Dag>, i2: int, j2: int, i: int, j: int) -> bool {
    &&& 0 <= i2 < dags.len()
    &&& 0 <= j2 < dags[i2].sub_dags@.len()
    &&& (i2 < i || (i2 == i && j2 < j))
}

/// Whether joint `c` is listed as a child at two different places, which
/// gives it two parent assignments.
pub open spec fn listed_twice(dags: Seq<Dag>, c: int) -> bool {
    exists|i1: int, j1: int, i2: int, j2: int|
        #![trigger dags[i1].sub_dags@[j1], dags[i2].sub_dags@[j2]]
        0 <= i1 < dags.len() && 0 <= j1 < dags[i1].sub_dags@.len() && 0 <= i2 < dags.len() && 0
            <= j2 < dags[i2].sub_dags@.len() && (i1 != i2 || j1 != j2) && dags[i1].sub_dags@[j1]
            == c && dags[i2].sub_dags@[j2] == c
}

/// Whether following parents from `c` reaches the root (joint 0) within
/// `fuel` steps.
pub open spec fn reaches_root(dags: Seq<Dag>, c: int, fuel: nat) -> bool
    decreases fuel,
{
    if c == 0 {
        true
    } else if fuel == 0 {
        false
    } else {
        let p = parent_of(dags, c);
        0 <= p < dags.len() && reaches_root(dags, p, (fuel - 1) as nat)
    }
}

/// The shape that the joint array of a skeleton is meant to have: every
/// child index names a non-root joint, no joint is listed twice, and every
/// joint reaches the root by following parents (so there is no cycle).
pub open spec fn dags_form_tree(dags: Seq<Dag>) -> bool {
    &&& dags.len() > 0
    &&& forall|i: int, j: int|
        0 <= i < dags.len() && 0 <= j < dags[i].sub_dags@.len() ==> 0 < #[trigger] dags[i].sub_dags@[j]
            < dags.len()
    &&& forall|i1: int, j1: int, i2: int, j2: int|
        0 <= i1 < dags.len() && 0 <= j1 < dags[i1].sub_dags@.len() && 0 <= i2 < dags.len() && 0
            <= j2 < dags[i2].sub_dags@.len() && #[trigger] dags[i1].sub_dags@[j1]
            == #[trigger] dags[i2].sub_dags@[j2] ==> i1 == i2 && j1 == j2
    &&& forall|c: int| 0 <= c < dags.len() ==> #[trigger] reaches_root(dags, c, dags.len() as nat)
}

/// A bone, as values.
pub struct BoneView {
    pub full_name: Seq<u8>,
    pub name: Seq<u8>,
    pub bone_index: u32,
    pub parent_index: i32,
    pub attachment_ref: u32,
    pub rest: Keyframe,
}

/// One bone of a skeleton, derived from the joint at the same position.
#[derive(Clone, Debug)]
pub struct S3DBone {
    full_name: Vec<u8>,
    name: Vec<u8>,
    bone_index: u32,
    parent_index: i32,
    attachment_ref: u32,
    rest: Keyframe,
}

impl View for S3DBone {
    type V = BoneView;

    closed spec fn view(&self) -> BoneView {
        BoneView {
            full_name: self.full_name@,
            name: self.name@,
            bone_index: self.bone_index,
            parent_index: self.parent_index,
            attachment_ref: self.attachment_ref,
            rest: self.rest,
        }
    }
}

impl S3DBone {
    /// The generic name of the bone, without the actor tag.
    pub fn name(&self) -> (r: &Vec<u8>)
        ensures
            r@ == self@.name,
    {
        &self.name
    }

    /// The joint's own name, tag included.
    pub fn full_name(&self) -> (r: &Vec<u8>)
        ensures
            r@ == self@.full_name,
    {
        &self.full_name
    }

    /// The bone's position in the skeleton, which mesh bone indices use.
    pub fn bone_index(&self) -> (r: u32)
        ensures
            r == self@.bone_index,
    {
        self.bone_index
    }

    /// The parent bone's index, or -1 for the root.
    pub fn parent_index(&self) -> (r: i32)
        ensures
            r == self@.parent_index,
    {
        self.parent_index
    }

    /// The rest-pose translation (frame 0 of the joint's rest track).
    pub fn rest_position(&self) -> (r: Translation)
        ensures
            r == self@.rest.translation,
    {
        self.rest.translation
    }

    /// The rest-pose rotation (frame 0 of the joint's rest track).
    pub fn rest_quaternion(&self) -> (r: Rotation)
        ensures
            r == self@.rest.rotation,
    {
        self.rest.rotation
    }

    /// The index of the fragment attached to this bone, if any.
    pub fn attachment(&self) -> (r: Option<u32>)
        ensures
            r == (if self@.attachment_ref > 0 {
                Some(self@.attachment_ref)
            } else {
                None::<u32>
            }),
    {
        if self.attachment_ref > 0 {
            Some(self.attachment_ref)
        } else {
            None
        }
    }
}

pub open spec fn track_of(f: Fragment) -> Track {
    match f {
        Fragment::Track(t) => t,
        _ => arbitrary(),
    }
}

pub open spec fn track_def_of(f: Fragment) -> TrackDef {
    match f {
        Fragment::TrackDef(t) => t,
        _ => arbitrary(),
    }
}

/// The rest track of a joint: the track its track reference indexes. A
/// reference that leads to no track is a broken reference.
pub open spec fn rest_track_spec(doc: Document, dag: Dag) -> Result<Track, WldError> {
    let r = FragmentRef::Index(dag.track_reference);
    match doc.spec_resolve(r, FragmentKind::Track) {
        Ok(p) => Ok(track_of(doc.frags()[p])),
        Err(_) => Err(WldError::BrokenReference { via: r }),
    }
}

/// The track definition that a track points at.
pub open spec fn track_def_spec(doc: Document, t: Track) -> Result<TrackDef, WldError> {
    match doc.spec_resolve(t.reference, FragmentKind::TrackDef) {
        Ok(p) => Ok(track_def_of(doc.frags()[p])),
        Err(e) => Err(e),
    }
}

/// A joint's rest pose: frame 0 of its rest track's definition. A rest
/// track that cannot be resolved, whose definition cannot be, or that has no
/// frame, is a broken reference through the joint's track reference.
pub open spec fn rest_frame_spec(doc: Document, dag: Dag) -> Result<Keyframe, WldError> {
    let via = FragmentRef::Index(dag.track_reference);
    match rest_track_spec(doc, dag) {
        Err(e) => Err(e),
        Ok(t) => match track_def_spec(doc, t) {
            Err(_) => Err(WldError::BrokenReference { via }),
            Ok(d) => if frame_count_spec(d) == 0 {
                Err(WldError::BrokenReference { via })
            } else {
                Ok(frame_spec(d, 0))
            },
        },
    }
}

/// The bone built from joint `i`, or the error met on the way.
pub open spec fn dag_bone_spec(
    doc: Document,
    naming: BoneNaming,
    tag: Seq<u8>,
    dags: Seq<Dag>,
    i: int,
) -> Result<BoneView, WldError> {
    let dag = dags[i];
    match doc.name_or_empty(dag.name_reference) {
        Err(e) => Err(e),
        Ok(full) => match rest_frame_spec(doc, dag) {
            Err(e) => Err(e),
            Ok(k) => Ok(
                BoneView {
                    full_name: full,
                    name: bone_name_spec(naming, tag, full),
                    bone_index: i as u32,
                    parent_index: parent_of(dags, i) as i32,
                    attachment_ref: dag.mesh_or_sprite_reference,
                    rest: k,
                },
            ),
        },
    }
}

/// The error of the first of the first `n` joints that cannot be built.
pub open spec fn first_bone_error(
    doc: Document,
    naming: BoneNaming,
    tag: Seq<u8>,
    dags: Seq<Dag>,
    n: int,
) -> Option<WldError>
    decreases n,
{
    if n <= 0 {
        None
    } else {
        match first_bone_error(doc, naming, tag, dags, n - 1) {
            Some(e) => Some(e),
            None => match dag_bone_spec(doc, naming, tag, dags, n - 1) {
                Err(e) => Some(e),
                Ok(_) => None,
            },
        }
    }
}

proof fn lemma_first_bone_error_prefix(
    doc: Document,
    naming: BoneNaming,
    tag: Seq<u8>,
    dags: Seq<Dag>,
    n: int,
    i: int,
)
    requires
        0 <= i < n,
        first_bone_error(doc, naming, tag, dags, n) is None,
    ensures
        dag_bone_spec(doc, naming, tag, dags, i) is Ok,
    decreases n,
{
    if i < n - 1 {
        lemma_first_bone_error_prefix(doc, naming, tag, dags, n - 1, i);
    }
}

/// The parent index of every joint.
pub fn parent_indices(dags: &Vec<Dag>) -> (r: Vec<i32>)
    requires
        dags@.len() <= MAX_BONES,
    ensures
        r@.len() == dags@.len(),
        forall|c: int| 0 <= c < dags@.len() ==> r@[c] as int == parent_of(dags@, c),
{
    let n = dags.len();
    let mut parents: Vec<i32> = Vec::new();
    let mut c: usize = 0;
    while c < n
        invariant
            n == dags@.len(),
            c <= n,
            parents@.len() == c,
            forall|k: int| 0 <= k < c ==> parents@[k] == -1,
        decreases n - c,
    {
        parents.push(-1);
        c = c + 1;
    }
    let mut i: usize = 0;
    while i < n
        invariant
            n == dags@.len(),
            n <= MAX_BONES,
            i <= n,
            parents@.len() == n,
            forall|k: int| 0 <= k < n ==> parents@[k] as int == parent_upto(dags@, k, i as int),
        decreases n - i,
    {
        let subs = &dags[i].sub_dags;
        let mut j: usize = 0;
        while j < subs.len()
            invariant
                n == dags@.len(),
                n <= MAX_BONES,
                i < n,
                subs@ == dags@[i as int].sub_dags@,
                j <= subs@.len(),
                parents@.len() == n,
                forall|k: int|
                    0 <= k < n ==> parents@[k] as int == (if subs@.subrange(0, j as int).contains(
                        k as u32,
                    ) {
                        i as int
                    } else {
                        parent_upto(dags@, k, i as int)
                    }),
            decreases subs@.len() - j,
        {
            let child = subs[j];
            let ghost before = subs@.subrange(0, j as int);
            let ghost after = subs@.subrange(0, j + 1);
            assert(after == before.push(child));
            assert forall|k: int| 0 <= k < n implies #[trigger] after.contains(k as u32) == (before.contains(
                k as u32,
            ) || child == k as u32) by {
                if child == k as u32 {
                    assert(after[j as int] == child);
                }
                if before.contains(k as u32) {
                    let w = choose|w: int| 0 <= w < before.len() && before[w] == k as u32;
                    assert(after[w] == k as u32);
                }
                if after.contains(k as u32) {
                    let w = choose|w: int| 0 <= w < after.len() && after[w] == k as u32;
                    if w < j {
                        assert(before[w] == k as u32);
                    }
                }
            }
            if (child as usize) < n {
                parents.set(child as usize, i as i32);
            }
            j = j + 1;
        }
        assert(subs@.subrange(0, subs@.len() as int) == subs@);
        i = i + 1;
    }
    parents
}

/// A skeleton (hierarchical sprite): a handle on its fragment in a document.
#[derive(Clone, Copy, Debug, PartialEq, Eq, Structural)]
pub struct S3DHierSprite {
    pub index: u32,
}

impl S3DHierSprite {
    /// The 1-based index of the skeleton's fragment.
    pub open spec fn index_spec(&self) -> u32 {
        self.index
    }

    /// The skeleton fragment this handle names in `doc`.
    pub open spec fn def_in(&self, doc: Document) -> HierarchicalSpriteDef {
        match doc.frags()[self.index - 1] {
            Fragment::HierarchicalSpriteDef(d) => d,
            _ => arbitrary(),
        }
    }

    /// Whether this handle names a skeleton fragment of `doc`.
    pub open spec fn valid_in(&self, doc: Document) -> bool {
        &&& 1 <= self.index <= doc.count_spec()
        &&& doc.frags()[self.index - 1].spec_kind() == FragmentKind::HierarchicalSpriteDef
    }

    /// The skeleton's name, "no name" read as empty.
    pub open spec fn name_spec(&self, doc: Document) -> Result<Seq<u8>, WldError> {
        doc.name_or_empty(self.def_in(doc).name_reference)
    }

    /// Opens the skeleton at the given 1-based index.
    pub fn load(doc: &Document, index: u32) -> (res: Result<S3DHierSprite, WldError>)
        ensures
            match res {
                Ok(h) => doc.spec_resolve(FragmentRef::Index(index), FragmentKind::HierarchicalSpriteDef)
                    is Ok && h.index_spec() == index && h.valid_in(*doc),
                Err(e) => doc.spec_resolve(
                    FragmentRef::Index(index),
                    FragmentKind::HierarchicalSpriteDef,
                ) == Err::<int, WldError>(e),
            },
    {
        let _p = doc.resolve(FragmentRef::Index(index), FragmentKind::HierarchicalSpriteDef)?;
        Ok(S3DHierSprite { index })
    }

    /// The 1-based index of the skeleton's fragment.
    pub fn index(&self) -> (r: u32)
        ensures
            r == self.index_spec(),
    {
        self.index
    }

    pub(crate) fn def<'a>(&self, doc: &'a Document) -> (d: &'a HierarchicalSpriteDef)
        requires
            self.valid_in(*doc),
        ensures
            *d == self.def_in(*doc),
        decreases 0nat,
    {
        match &doc.fragments[self.index as usize - 1] {
            Fragment::HierarchicalSpriteDef(d) => d,
            _ => {
                // `valid_in` fixes the kind, so this arm is never taken.
                assert(false);
                self.def(doc)
            },
        }
    }

    /// The skeleton's name.
    pub fn name(&self, doc: &Document) -> (res: Result<Vec<u8>, WldError>)
        requires
            self.valid_in(*doc),
        ensures
            match res {
                Ok(v) => self.name_spec(*doc) == Ok::<Seq<u8>, WldError>(v@),
                Err(e) => self.name_spec(*doc) == Err::<Seq<u8>, WldError>(e),
            },
    {
        doc.name_of(self.def(doc).name_reference)
    }

    /// The naming rule and actor tag of this skeleton.
    pub fn naming(&self, doc: &Document) -> (res: Result<(BoneNaming, Vec<u8>), WldError>)
        requires
            self.valid_in(*doc),
        ensures
            match res {
                Ok((n, t)) => self.name_spec(*doc) is Ok && n == naming_for_spec(
                    self.name_spec(*doc)->Ok_0,
                ) && t@ == actor_tag_spec(n, self.name_spec(*doc)->Ok_0),
                Err(e) => self.name_spec(*doc) == Err::<Seq<u8>, WldError>(e),
            },
    {
        let name = self.name(doc)?;
        let naming = BoneNaming::detect(&name);
        let tag = actor_tag(naming, &name);
        Ok((naming, tag))
    }

    /// The actor tag shared by this skeleton's fragments.
    pub fn tag(&self, doc: &Document) -> (res: Result<Vec<u8>, WldError>)
        requires
            self.valid_in(*doc),
        ensures
            match res {
                Ok(t) => self.name_spec(*doc) is Ok && t@ == actor_tag_spec(
                    naming_for_spec(self.name_spec(*doc)->Ok_0),
                    self.name_spec(*doc)->Ok_0,
                ),
                Err(e) => self.name_spec(*doc) == Err::<Seq<u8>, WldError>(e),
            },
    {
        let (_n, t) = self.naming(doc)?;
        Ok(t)
    }

    /// Builds the bones: one per joint, in joint order, each with its
    /// generic name, rest pose and parent. Fails with the first joint whose
    /// name or rest track cannot be resolved.
    pub fn bones(&self, doc: &Document) -> (res: Result<Vec<S3DBone>, WldError>)
        requires
            self.valid_in(*doc),
        ensures
            ({
                let dags = self.def_in(*doc).dags@;
                match self.name_spec(*doc) {
                    Err(e) => res == Err::<Vec<S3DBone>, WldError>(e),
                    Ok(name) => {
                        let naming = naming_for_spec(name);
                        let tag = actor_tag_spec(naming, name);
                        if dags.len() > MAX_BONES {
                            res == Err::<Vec<S3DBone>, WldError>(WldError::MalformedInput)
                        } else {
                            match first_bone_error(*doc, naming, tag, dags, dags.len() as int) {
                                Some(e) => res == Err::<Vec<S3DBone>, WldError>(e),
                                None => res is Ok && res->Ok_0@.len() == dags.len() && forall|i: int|
                                    0 <= i < dags.len() ==> (#[trigger] res->Ok_0@[i])@
                                        == dag_bone_spec(*doc, naming, tag, dags, i)->Ok_0,
                            }
                        }
                    },
                }
            }),
    {
        let (naming, tag) = self.naming(doc)?;
        let dags = &self.def(doc).dags;
        let n = dags.len();
        if n > MAX_BONES {
            return Err(WldError::MalformedInput);
        }
        let parents = parent_indices(dags);
        let ghost name = self.name_spec(*doc)->Ok_0;
        let mut bones: Vec<S3DBone> = Vec::new();
        let mut i: usize = 0;
        while i < n
            invariant
                n == dags@.len(),
                n <= MAX_BONES,
                *dags == self.def_in(*doc).dags,
                self.name_spec(*doc) == Ok::<Seq<u8>, WldError>(name),
                naming == naming_for_spec(name),
                tag@ == actor_tag_spec(naming, name),
                parents@.len() == n,
                forall|c: int| 0 <= c < n ==> parents@[c] as int == parent_of(dags@, c),
                i <= n,
                first_bone_error(*doc, naming, tag@, dags@, i as int) is None,
                bones@.len() == i,
                forall|k: int|
                    0 <= k < i ==> (#[trigger] bones@[k])@ == dag_bone_spec(
                        *doc,
                        naming,
                        tag@,
                        dags@,
                        k,
                    )->Ok_0,
            decreases n - i,
        {
            let dag = &dags[i];
            let full = match doc.name_of(dag.name_reference) {
                Ok(v) => v,
                Err(e) => {
                    assert(dag_bone_spec(*doc, naming, tag@, dags@, i as int) == Err::<
                        BoneView,
                        WldError,
                    >(e));
                    assert(first_bone_error(*doc, naming, tag@, dags@, i as int + 1) == Some(e));
                    proof {
                        lemma_first_bone_error_stays(*doc, naming, tag@, dags@, i as int + 1, n as int);
                    }
                    return Err(e);
                },
            };
            let rest = match rest_frame(doc, dag) {
                Ok(k) => k,
                Err(e) => {
                    assert(dag_bone_spec(*doc, naming, tag@, dags@, i as int) == Err::<
                        BoneView,
                        WldError,
                    >(e));
                    assert(first_bone_error(*doc, naming, tag@, dags@, i as int + 1) == Some(e));
                    proof {
                        lemma_first_bone_error_stays(*doc, naming, tag@, dags@, i as int + 1, n as int);
                    }
                    return Err(e);
                },
            };
            let bone_name = bone_name_from_dag(naming, &tag, &full);
            let bone = S3DBone {
                full_name: full,
                name: bone_name,
                bone_index: i as u32,
                parent_index: parents[i],
                attachment_ref: dag.mesh_or_sprite_reference,
                rest,
            };
            bones.push(bone);
            i = i + 1;
        }
        Ok(bones)
    }
}

proof fn lemma_first_bone_error_stays(
    doc: Document,
    naming: BoneNaming,
    tag: Seq<u8>,
    dags: Seq<Dag>,
    m: int,
    n: int,
)
    requires
        0 < m <= n,
        first_bone_error(doc, naming, tag, dags, m) is Some,
    ensures
        first_bone_error(doc, naming, tag, dags, n) == first_bone_error(doc, naming, tag, dags, m),
    decreases n - m,
{
    if m < n {
        lemma_first_bone_error_stays(doc, naming, tag, dags, m, n - 1);
    }
}

/// The meshes among the first `k` skinned-mesh references of a skeleton:
/// each must index a fragment; mesh references to a mesh by index give that
/// mesh, anything else is passed over.
pub open spec fn sprite_meshes_upto(doc: Document, refs: Seq<u32>, k: int) -> Result<Seq<u32>, WldError>
    decreases k,
{
    if k <= 0 {
        Ok(Seq::empty())
    } else {
        match sprite_meshes_upto(doc, refs, k - 1) {
            Err(e) => Err(e),
            Ok(found) => match doc.spec_by_index(refs[k - 1]) {
                Err(e) => Err(e),
                Ok(Fragment::DmSprite(s)) => match s.reference {
                    FragmentRef::Index(i) => if 1 <= i <= doc.count_spec() && is_mesh_kind(
                        doc.frags()[i - 1].spec_kind(),
                    ) {
                        Ok(found.push(i))
                    } else {
                        Ok(found)
                    },
                    FragmentRef::Name(_) => Ok(found),
                },
                Ok(_) => Ok(found),
            },
        }
    }
}

proof fn lemma_sprite_meshes_err_stays(doc: Document, refs: Seq<u32>, k: int, n: int)
    requires
        0 < k <= n,
        sprite_meshes_upto(doc, refs, k) is Err,
    ensures
        sprite_meshes_upto(doc, refs, n) == sprite_meshes_upto(doc, refs, k),
    decreases n - k,
{
    if k < n {
        lemma_sprite_meshes_err_stays(doc, refs, k, n - 1);
    }
}

/// The names, among the materials at the first `k` indices of `mats`,
/// that start with `tag`.
pub open spec fn tagged_materials_upto(doc: Document, mats: Seq<usize>, tag: Seq<u8>, k: int) -> Seq<
    Seq<u8>,
>
    decreases k,
{
    if k <= 0 {
        Seq::empty()
    } else {
        let prev = tagged_materials_upto(doc, mats, tag, k - 1);
        let f = doc.frags()[mats[k - 1] - 1];
        match doc.spec_string(f.spec_name_reference()) {
            Ok(Some(n)) => if starts_with_spec(n, tag) {
                prev.push(n)
            } else {
                prev
            },
            _ => prev,
        }
    }
}

impl S3DHierSprite {
    /// The joints that the skeleton gives two parents (listed as a child at
    /// two places), in increasing order: a data-integrity warning, since
    /// `bones` keeps the later parent.
    pub fn parent_conflict(&self, doc: &Document) -> (res: Result<Vec<u32>, WldError>)
        requires
            self.valid_in(*doc),
        ensures
            self.def_in(*doc).dags@.len() > MAX_BONES ==> res == Err::<Vec<u32>, WldError>(
                WldError::MalformedInput,
            ),
            self.def_in(*doc).dags@.len() <= MAX_BONES ==> res is Ok && conflicts_listed(
                self.def_in(*doc).dags@,
                res->Ok_0@,
            ),
    {
        let dags = &self.def(doc).dags;
        if dags.len() > MAX_BONES {
            return Err(WldError::MalformedInput);
        }
        Ok(doubly_listed_joints(dags))
    }

    /// The meshes skinned to this skeleton (usually a head and a body), by
    /// 1-based index. A listed index past the fragments is an error; a
    /// listed fragment that is not a mesh reference to a mesh is passed over.
    pub fn meshes(&self, doc: &Document) -> (res: Result<Vec<u32>, WldError>)
        requires
            self.valid_in(*doc),
        ensures
            match res {
                Ok(v) => sprite_meshes_upto(
                    *doc,
                    self.def_in(*doc).dm_sprites@,
                    self.def_in(*doc).dm_sprites@.len() as int,
                ) == Ok::<Seq<u32>, WldError>(v@),
                Err(e) => sprite_meshes_upto(
                    *doc,
                    self.def_in(*doc).dm_sprites@,
                    self.def_in(*doc).dm_sprites@.len() as int,
                ) == Err::<Seq<u32>, WldError>(e),
            },
    {
        let refs = &self.def(doc).dm_sprites;
        let n = refs.len();
        let mut out: Vec<u32> = Vec::new();
        let mut k: usize = 0;
        while k < n
            invariant
                n == refs@.len(),
                *refs == self.def_in(*doc).dm_sprites,
                k <= n,
                sprite_meshes_upto(*doc, refs@, k as int) == Ok::<Seq<u32>, WldError>(out@),
            decreases n - k,
        {
            match doc.get_by_index(refs[k]) {
                Err(e) => {
                    assert(sprite_meshes_upto(*doc, refs@, k as int + 1) == Err::<Seq<u32>, WldError>(e));
                    proof {
                        lemma_sprite_meshes_err_stays(*doc, refs@, k as int + 1, n as int);
                    }
                    return Err(e);
                },
                Ok(Fragment::DmSprite(s)) => {
                    match S3DMesh::from_reference(doc, s) {
                        Some(m) => out.push(m.index),
                        None => {},
                    }
                },
                Ok(_) => {},
            }
            k = k + 1;
        }
        Ok(out)
    }

    /// The names of the materials (in file order) that start with this
    /// skeleton's actor tag: its skin variations.
    pub fn skin_material_names(&self, doc: &Document) -> (res: Result<Vec<Vec<u8>>, WldError>)
        requires
            self.valid_in(*doc),
        ensures
            match res {
                Ok(v) => self.name_spec(*doc) is Ok && v@.map_values(|e: Vec<u8>| e@)
                    == tagged_materials_upto(
                    *doc,
                    doc.indices_of_kind_upto(FragmentKind::MaterialDef, doc.count_spec()),
                    actor_tag_spec(
                        naming_for_spec(self.name_spec(*doc)->Ok_0),
                        self.name_spec(*doc)->Ok_0,
                    ),
                    doc.indices_of_kind_upto(FragmentKind::MaterialDef, doc.count_spec()).len() as int,
                ),
                Err(e) => self.name_spec(*doc) == Err::<Seq<u8>, WldError>(e),
            },
    {
        let tag = self.tag(doc)?;
        let mats = doc.indices_of_kind(FragmentKind::MaterialDef);
        let count = doc.fragments.len();
        proof {
            doc.lemma_indices_of_kind(FragmentKind::MaterialDef, doc.count_spec());
        }
        let mut out: Vec<Vec<u8>> = Vec::new();
        let mut k: usize = 0;
        while k < mats.len()
            invariant
                count == doc.count_spec(),
                mats@ == doc.indices_of_kind_upto(FragmentKind::MaterialDef, doc.count_spec()),
                forall|j: int|
                    0 <= j < mats@.len() ==> {
                        let t = #[trigger] mats@[j];
                        &&& 1 <= t <= count
                        &&& doc.frags()[t - 1].spec_kind() == FragmentKind::MaterialDef
                    },
                k <= mats@.len(),
                out@.map_values(|e: Vec<u8>| e@) == tagged_materials_upto(*doc, mats@, tag@, k as int),
            decreases mats@.len() - k,
        {
            let t = mats[k];
            assert(1 <= mats@[k as int] <= count);
            match doc.get_string(doc.fragments[t - 1].name_reference()) {
                Ok(Some(n)) => {
                    if starts_with(&n, &tag) {
                        let ghost before = out@;
                        let ghost nv = n@;
                        out.push(n);
                        assert(out@.map_values(|e: Vec<u8>| e@) == before.map_values(|e: Vec<u8>| e@).push(
                            nv,
                        ));
                    }
                },
                _ => {},
            }
            k = k + 1;
        }
        Ok(out)
    }
}

/// Whether `r` lists, in increasing order, exactly the joints that are
/// listed as a child at two places.
pub open spec fn conflicts_listed(dags: Seq<Dag>, r: Seq<u32>) -> bool {
    &&& forall|a: int, b: int| 0 <= a < b < r.len() ==> #[trigger] r[a] < #[trigger] r[b]
    &&& forall|k: int| 0 <= k < r.len() ==> (#[trigger] r[k]) < dags.len() && listed_twice(dags, r[k] as int)
    &&& forall|c: int| 0 <= c < dags.len() && listed_twice(dags, c) ==> r.contains(c as u32)
}

/// The joints listed as a child at two places, in increasing order.
pub fn doubly_listed_joints(dags: &Vec<Dag>) -> (r: Vec<u32>)
    requires
        dags@.len() <= MAX_BONES,
    ensures
        conflicts_listed(dags@, r@),
{
    let n = dags.len();
    let ghost d = dags@;
    let mut seen: Vec<u8> = Vec::new();
    let mut c: usize = 0;
    while c < n
        invariant
            n == d.len(),
            c <= n,
            seen@.len() == c,
            forall|k: int| 0 <= k < c ==> seen@[k] == 0,
        decreases n - c,
    {
        seen.push(0);
        c = c + 1;
    }
    // First and second places each joint was found listed at, so far.
    let ghost mut w1: Seq<(int, int)> = Seq::new(n as nat, |k: int| (0int, 0int));
    let ghost mut w2: Seq<(int, int)> = Seq::new(n as nat, |k: int| (0int, 0int));
    let mut i: usize = 0;
    while i < n
        invariant
            n == d.len(),
            d == dags@,
            n <= MAX_BONES,
            i <= n,
            seen@.len() == n,
            w1.len() == n,
            w2.len() == n,
            forall|k: int| 0 <= k < n ==> seen@[k] <= 2,
            forall|k: int, i2: int, j2: int|
                #![trigger seen@[k], d[i2].sub_dags@[j2]]
                0 <= k < n && seen@[k] == 0 && listed_before(d, i2, j2, i as int, 0) ==> d[i2].sub_dags@[j2]
                    != k,
            forall|k: int|
                0 <= k < n && seen@[k] >= 1 ==> listed_before(d, #[trigger] w1[k].0, w1[k].1, i as int, 0)
                    && d[w1[k].0].sub_dags@[w1[k].1] == k,
            forall|k: int, i2: int, j2: int|
                #![trigger seen@[k], d[i2].sub_dags@[j2]]
                0 <= k < n && seen@[k] == 1 && listed_before(d, i2, j2, i as int, 0) && d[i2].sub_dags@[j2]
                    == k ==> i2 == w1[k].0 && j2 == w1[k].1,
            forall|k: int|
                0 <= k < n && seen@[k] == 2 ==> listed_before(d, #[trigger] w2[k].0, w2[k].1, i as int, 0)
                    && d[w2[k].0].sub_dags@[w2[k].1] == k && (w2[k].0 != w1[k].0 || w2[k].1 != w1[k].1),
        decreases n - i,
    {
        let subs = &dags[i].sub_dags;
        let mut j: usize = 0;
        while j < subs.len()
            invariant
                n == d.len(),
                d == dags@,
                i < n,
                subs@ == d[i as int].sub_dags@,
                j <= subs@.len(),
                seen@.len() == n,
                w1.len() == n,
                w2.len() == n,
                forall|k: int| 0 <= k < n ==> seen@[k] <= 2,
                forall|k: int, i2: int, j2: int|
                #![trigger seen@[k], d[i2].sub_dags@[j2]]
                    0 <= k < n && seen@[k] == 0 && listed_before(d, i2, j2, i as int, j as int) ==> d[i2].sub_dags@[j2]
                        != k,
                forall|k: int|
                    0 <= k < n && seen@[k] >= 1 ==> listed_before(d, #[trigger] w1[k].0, w1[k].1, i as int, j as int)
                        && d[w1[k].0].sub_dags@[w1[k].1] == k,
                forall|k: int, i2: int, j2: int|
                #![trigger seen@[k], d[i2].sub_dags@[j2]]
                    0 <= k < n && seen@[k] == 1 && listed_before(d, i2, j2, i as int, j as int) && d[i2].sub_dags@[j2]
                        == k ==> i2 == w1[k].0 && j2 == w1[k].1,
                forall|k: int|
                    0 <= k < n && seen@[k] == 2 ==> listed_before(d, #[trigger] w2[k].0, w2[k].1, i as int, j as int)
                        && d[w2[k].0].sub_dags@[w2[k].1] == k && (w2[k].0 != w1[k].0 || w2[k].1 != w1[k].1),
            decreases subs@.len() - j,
        {
            let child = subs[j];
            if (child as usize) < n {
                let ch = child as usize;
                let s0 = seen[ch];
                if s0 == 0 {
                    seen.set(ch, 1);
                    proof {
                        w1 = w1.update(ch as int, (i as int, j as int));
                    }
                } else if s0 == 1 {
                    seen.set(ch, 2);
                    proof {
                        w2 = w2.update(ch as int, (i as int, j as int));
                    }
                }
            }
            j = j + 1;
        }
        i = i + 1;
    }
    let mut out: Vec<u32> = Vec::new();
    let mut c: usize = 0;
    while c < n
        invariant
            n == d.len(),
            d == dags@,
            n <= MAX_BONES,
            c <= n,
            seen@.len() == n,
            forall|k: int| 0 <= k < n ==> seen@[k] <= 2,
            w1.len() == n,
            w2.len() == n,
            forall|k: int, i2: int, j2: int|
                #![trigger seen@[k], d[i2].sub_dags@[j2]]
                0 <= k < n && seen@[k] == 0 && listed_before(d, i2, j2, n as int, 0) ==> d[i2].sub_dags@[j2]
                    != k,
            forall|k: int|
                0 <= k < n && seen@[k] >= 1 ==> listed_before(d, #[trigger] w1[k].0, w1[k].1, n as int, 0)
                    && d[w1[k].0].sub_dags@[w1[k].1] == k,
            forall|k: int, i2: int, j2: int|
                #![trigger seen@[k], d[i2].sub_dags@[j2]]
                0 <= k < n && seen@[k] == 1 && listed_before(d, i2, j2, n as int, 0) && d[i2].sub_dags@[j2]
                    == k ==> i2 == w1[k].0 && j2 == w1[k].1,
            forall|k: int|
                0 <= k < n && seen@[k] == 2 ==> listed_before(d, #[trigger] w2[k].0, w2[k].1, n as int, 0)
                    && d[w2[k].0].sub_dags@[w2[k].1] == k && (w2[k].0 != w1[k].0 || w2[k].1 != w1[k].1),
            forall|a: int, b: int| 0 <= a < b < out@.len() ==> #[trigger] out@[a] < #[trigger] out@[b],
            forall|k: int| 0 <= k < out@.len() ==> (#[trigger] out@[k]) < c && listed_twice(d, out@[k] as int),
            forall|k: int| 0 <= k < c && listed_twice(d, k) ==> out@.contains(k as u32),
        decreases n - c,
    {
        let ghost before = out@;
        if seen[c] == 2 {
            proof {
                let (a1, b1) = w1[c as int];
                let (a2, b2) = w2[c as int];
                assert(d[a1].sub_dags@[b1] == c && d[a2].sub_dags@[b2] == c);
            }
            out.push(c as u32);
        } else {
            proof {
                if listed_twice(d, c as int) {
                    let (i1, j1, i2, j2) = choose|i1: int, j1: int, i2: int, j2: int|
                        #![trigger d[i1].sub_dags@[j1], d[i2].sub_dags@[j2]]
                        0 <= i1 < d.len() && 0 <= j1 < d[i1].sub_dags@.len() && 0 <= i2 < d.len()
                            && 0 <= j2 < d[i2].sub_dags@.len() && (i1 != i2 || j1 != j2)
                            && d[i1].sub_dags@[j1] == c && d[i2].sub_dags@[j2] == c;
                    assert(listed_before(d, i1, j1, n as int, 0));
                    assert(listed_before(d, i2, j2, n as int, 0));
                    assert(d[i1].sub_dags@[j1] == c);
                    assert(d[i2].sub_dags@[j2] == c);
                    assert(seen@[c as int] == 0 || seen@[c as int] == 1);
                    assert(false);
                }
            }
        }
        assert forall|k: int| 0 <= k < c + 1 && listed_twice(d, k) implies out@.contains(k as u32) by {
            if k < c {
                let w = choose|w: int| 0 <= w < before.len() && before[w] == k as u32;
                assert(out@[w] == k as u32);
            } else {
                assert(out@[out@.len() - 1] == k as u32);
            }
        }
        c = c + 1;
    }
    out
}

proof fn lemma_parent_upto(dags: Seq<Dag>, c: int, k: int)
    requires
        0 <= k <= dags.len(),
    ensures
        parent_upto(dags, c, k) == -1 ==> forall|i: int|
            0 <= i < k ==> !(#[trigger] dags[i].sub_dags@.contains(c as u32)),
        parent_upto(dags, c, k) != -1 ==> 0 <= parent_upto(dags, c, k) < k && dags[parent_upto(
            dags,
            c,
            k,
        )].sub_dags@.contains(c as u32),
    decreases k,
{
    if k > 0 {
        lemma_parent_upto(dags, c, k - 1);
    }
}

proof fn lemma_self_parent_never_reaches(dags: Seq<Dag>, c: int, fuel: nat)
    requires
        c != 0,
        parent_of(dags, c) == c,
    ensures
        !reaches_root(dags, c, fuel),
    decreases fuel,
{
    if fuel > 0 {
        lemma_self_parent_never_reaches(dags, c, (fuel - 1) as nat);
    }
}

/// When a skeleton's joints form a tree, the bones' parent relation is a
/// tree too: the root (joint 0) is the one bone without a parent, every
/// other bone's parent is a different bone that lists it as a child, and
/// every bone reaches the root through its parents.
pub proof fn lemma_bones_form_tree(dags: Seq<Dag>)
    requires
        dags_form_tree(dags),
    ensures
        forall|c: int| 0 <= c < dags.len() ==> (#[trigger] parent_of(dags, c) == -1 <==> c == 0),
        forall|c: int|
            0 < c < dags.len() ==> {
                let p = #[trigger] parent_of(dags, c);
                &&& 0 <= p < dags.len()
                &&& p != c
                &&& dags[p].sub_dags@.contains(c as u32)
            },
        forall|c: int| 0 <= c < dags.len() ==> #[trigger] reaches_root(dags, c, dags.len() as nat),
{
    let n = dags.len() as int;
    assert forall|c: int| 0 <= c < n implies (#[trigger] parent_of(dags, c) == -1 <==> c == 0) by {
        lemma_parent_upto(dags, c, n);
        if c == 0 && parent_of(dags, c) != -1 {
            let p = parent_of(dags, c);
            let j = choose|j: int| 0 <= j < dags[p].sub_dags@.len() && dags[p].sub_dags@[j] == 0u32;
            assert(0 < dags[p].sub_dags@[j]);
        }
        if c != 0 {
            assert(reaches_root(dags, c, n as nat));
        }
    }
    assert forall|c: int| 0 < c < n implies {
        let p = #[trigger] parent_of(dags, c);
        &&& 0 <= p < n
        &&& p != c
        &&& dags[p].sub_dags@.contains(c as u32)
    } by {
        lemma_parent_upto(dags, c, n);
        assert(reaches_root(dags, c, n as nat));
        if parent_of(dags, c) == c {
            lemma_self_parent_never_reaches(dags, c, n as nat);
        }
    }
}

/// Whether following bones' parent indices from bone `c` reaches the root
/// (bone 0) within `fuel` steps.
pub open spec fn bone_reaches_root(bones: Seq<BoneView>, c: int, fuel: nat) -> bool
    decreases fuel,
{
    if c == 0 {
        true
    } else if fuel == 0 {
        false
    } else {
        let p = bones[c].parent_index as int;
        0 <= p < bones.len() && bone_reaches_root(bones, p, (fuel - 1) as nat)
    }
}

proof fn lemma_bone_chain(dags: Seq<Dag>, bones: Seq<BoneView>, c: int, fuel: nat)
    requires
        bones.len() == dags.len(),
        0 <= c < dags.len(),
        forall|i: int|
            0 < i < bones.len() ==> (#[trigger] bones[i]).parent_index as int == parent_of(dags, i),
        reaches_root(dags, c, fuel),
    ensures
        bone_reaches_root(bones, c, fuel),
    decreases fuel,
{
    if c != 0 && fuel > 0 {
        lemma_bone_chain(dags, bones, parent_of(dags, c), (fuel - 1) as nat);
    }
}

/// The same law read on the bones that `bones` builds from a skeleton whose
/// joints form a tree: exactly bone 0 has parent index -1, every other
/// bone's parent index names another bone of the skeleton, and following
/// parent indices from any bone reaches bone 0 in at most as many steps as
/// there are bones (so there is no cycle).
pub proof fn lemma_bone_parents_form_tree(
    doc: Document,
    naming: BoneNaming,
    tag: Seq<u8>,
    dags: Seq<Dag>,
    bones: Seq<BoneView>,
)
    requires
        dags_form_tree(dags),
        dags.len() <= MAX_BONES,
        bones.len() == dags.len(),
        forall|i: int|
            0 <= i < dags.len() ==> dag_bone_spec(doc, naming, tag, dags, i) == Ok::<
                BoneView,
                WldError,
            >(#[trigger] bones[i]),
    ensures
        forall|i: int| 0 <= i < bones.len() ==> ((#[trigger] bones[i]).parent_index == -1 <==> i == 0),
        forall|i: int|
            0 < i < bones.len() ==> 0 <= (#[trigger] bones[i]).parent_index < bones.len()
                && bones[i].parent_index != i,
        forall|i: int| 0 <= i < bones.len() ==> #[trigger] bone_reaches_root(bones, i, bones.len() as nat),
{
    lemma_bones_form_tree(dags);
    assert forall|i: int| 0 <= i < bones.len() implies ((#[trigger] bones[i]).parent_index == -1
        <==> i == 0) by {
        assert(dag_bone_spec(doc, naming, tag, dags, i) == Ok::<BoneView, WldError>(bones[i]));
        let p = parent_of(dags, i);
        assert(p == -1 <==> i == 0);
        if i > 0 {
            assert(0 <= p < dags.len());
        }
    }
    assert forall|i: int| 0 < i < bones.len() implies 0 <= (#[trigger] bones[i]).parent_index
        < bones.len() && bones[i].parent_index != i by {
        assert(dag_bone_spec(doc, naming, tag, dags, i) == Ok::<BoneView, WldError>(bones[i]));
        let p = parent_of(dags, i);
        assert(0 <= p < dags.len() && p != i);
    }
    assert forall|i: int| 0 < i < bones.len() implies (#[trigger] bones[i]).parent_index as int
        == parent_of(dags, i) by {
        assert(dag_bone_spec(doc, naming, tag, dags, i) == Ok::<BoneView, WldError>(bones[i]));
        let p = parent_of(dags, i);
        assert(0 <= p < dags.len());
    }
    assert forall|i: int| 0 <= i < bones.len() implies #[trigger] bone_reaches_root(
        bones,
        i,
        bones.len() as nat,
    ) by {
        lemma_bone_chain(dags, bones, i, dags.len() as nat);
    }
}

/// A joint's rest pose: frame 0 of the track definition behind its rest track.
pub fn rest_frame(doc: &Document, dag: &Dag) -> (res: Result<Keyframe, WldError>)
    ensures
        match res {
            Ok(k) => rest_frame_spec(*doc, *dag) == Ok::<Keyframe, WldError>(k),
            Err(e) => rest_frame_spec(*doc, *dag) == Err::<Keyframe, WldError>(e),
        },
{
    let via = FragmentRef::Index(dag.track_reference);
    let track = match doc.get_track(via) {
        Ok(t) => t,
        Err(_) => {
            return Err(WldError::BrokenReference { via });
        },
    };
    let def = match doc.get_track_def(track.reference) {
        Ok(d) => d,
        Err(_) => {
            return Err(WldError::BrokenReference { via });
        },
    };
    match def.frame(0) {
        Some(k) => Ok(k),
        None => Err(WldError::BrokenReference { via }),
    }
}

} // verus!
