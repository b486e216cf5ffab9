use vstd::prelude::*;

verus! {

/// A reference into the document's string table. Negative values name the
/// string that starts at byte offset `-value`; zero and positive values carry
/// no name (positive values are fragment indices in fields that hold either).
#[derive(Clone, Copy, Debug, PartialEq, Eq, Structural)]
pub struct StringReference(pub i32);

/// A cross reference to another fragment: by 1-based position, or by name.
#[derive(Clone, Copy, Debug, PartialEq, Eq, Structural)]
pub enum FragmentRef {
    Index(u32),
    Name(StringReference),
}

/// The record kinds that the decoders read; every other kind is `Other`.
#[derive(Clone, Copy, Debug, PartialEq, Eq, Structural)]
pub enum FragmentKind {
    BmInfo,
    SimpleSpriteDef,
    SimpleSprite,
    MaterialDef,
    MaterialPalette,
    DmSpriteDef,
    DmSpriteDef2,
    DmSprite,
    HierarchicalSpriteDef,
    TrackDef,
    Track,
    ActorDef,
    Actor,
    DmRgbTrackDef,
    DmRgbTrack,
    Other,
}

/// A list of image file names (one per frame of an animated texture).
#[derive(Clone, Debug)]
pub struct BmInfo {
    pub name_reference: StringReference,
    pub entries: Vec<Vec<u8>>,
}

/// A sprite definition: the frames of a texture and the delay between them.
#[derive(Clone, Debug)]
pub struct SimpleSpriteDef {
    pub name_reference: StringReference,
    pub sleep: Option<u32>,
    pub frame_references: Vec<FragmentRef>,
}

/// A texture reference: points at a `SimpleSpriteDef`.
#[derive(Clone, Debug)]
pub struct SimpleSprite {
    pub name_reference: StringReference,
    pub reference: FragmentRef,
}

/// A material: its render-method code and its texture reference.
#[derive(Clone, Debug)]
pub struct MaterialDef {
    pub name_reference: StringReference,
    pub flags: u32,
    pub render_method: u32,
    pub reference: FragmentRef,
}

/// A material list, in the order that face-material groups index it.
#[derive(Clone, Debug)]
pub struct MaterialPalette {
    pub name_reference: StringReference,
    pub fragments: Vec<FragmentRef>,
}

/// Three IEEE-754 single-precision values, as bit patterns.
#[derive(Clone, Copy, Debug, PartialEq, Eq, Structural)]
pub struct Bits3 {
    pub x: u32,
    pub y: u32,
    pub z: u32,
}

/// One triangle of a mesh.
#[derive(Clone, Copy, Debug)]
pub struct Face {
    pub flags: u16,
    pub vertex_indexes: (u16, u16, u16),
}

/// The older mesh layout: positions are IEEE-754 single-precision bit patterns.
#[derive(Clone, Debug)]
pub struct DmSpriteDef {
    pub name_reference: StringReference,
    pub flags: u32,
    pub material_list_ref: FragmentRef,
    pub center: Bits3,
    pub vertices: Vec<(u32, u32, u32)>,
    pub vertex_normals: Vec<(i8, i8, i8)>,
    pub vertex_colors: Vec<u32>,
    pub texture_coordinates: Vec<(u32, u32)>,
    pub skin_assignment_groups: Vec<(u16, u16)>,
    pub faces: Vec<Face>,
    pub face_material_groups: Option<Vec<(u16, u16)>>,
}

/// The quantized mesh layout: positions are `i16` scaled by `2^-scale`.
#[derive(Clone, Debug)]
pub struct DmSpriteDef2 {
    pub name_reference: StringReference,
    pub flags: u32,
    pub material_list_ref: FragmentRef,
    pub center: Bits3,
    pub scale: u16,
    pub positions: Vec<(i16, i16, i16)>,
    pub vertex_normals: Vec<(i8, i8, i8)>,
    pub vertex_colors: Vec<u32>,
    pub texture_coordinates: Vec<(i16, i16)>,
    pub skin_assignment_groups: Vec<(u16, u16)>,
    pub faces: Vec<Face>,
    pub face_material_groups: Vec<(u16, u16)>,
}

/// A mesh reference: points at a mesh of either layout.
#[derive(Clone, Debug)]
pub struct DmSprite {
    pub name_reference: StringReference,
    pub reference: FragmentRef,
}

/// One joint of a skeleton.
#[derive(Clone, Debug)]
pub struct Dag {
    pub name_reference: StringReference,
    pub track_reference: u32,
    pub mesh_or_sprite_reference: u32,
    pub sub_dags: Vec<u32>,
}

/// A skeleton: its joints, and the meshes skinned to it (fragment indices).
#[derive(Clone, Debug)]
pub struct HierarchicalSpriteDef {
    pub name_reference: StringReference,
    pub dags: Vec<Dag>,
    pub dm_sprites: Vec<u32>,
}

/// One keyframe in the quantized form: rotation and translation are
/// numerator/denominator quadruples.
#[derive(Clone, Copy, Debug, PartialEq, Eq, Structural)]
pub struct FrameTransform {
    pub rotate_denominator: i16,
    pub rotate_x_numerator: i16,
    pub rotate_y_numerator: i16,
    pub rotate_z_numerator: i16,
    pub shift_x_numerator: i16,
    pub shift_y_numerator: i16,
    pub shift_z_numerator: i16,
    pub shift_denominator: i16,
}

/// One keyframe in the legacy form; each field is an IEEE-754
/// single-precision bit pattern.
#[derive(Clone, Copy, Debug, PartialEq, Eq, Structural)]
pub struct LegacyFrameTransform {
    pub rotate_w: u32,
    pub rotate_x: u32,
    pub rotate_y: u32,
    pub rotate_z: u32,
    pub shift_x_numerator: u32,
    pub shift_y_numerator: u32,
    pub shift_z_numerator: u32,
    pub shift_denominator: u32,
}

/// The keyframes of a track definition, in one of the two encodings.
#[derive(Clone, Debug)]
pub enum Frames {
    Quantized(Vec<FrameTransform>),
    Legacy(Vec<LegacyFrameTransform>),
}

/// A track definition: the keyframe data that tracks point at.
#[derive(Clone, Debug)]
pub struct TrackDef {
    pub name_reference: StringReference,
    pub frames: Frames,
}

/// A track: a named pointer to a `TrackDef`, with its frame delay in ms.
#[derive(Clone, Debug)]
pub struct Track {
    pub name_reference: StringReference,
    pub reference: FragmentRef,
    pub sleep: Option<u32>,
}

/// An actor definition: the fragments (usually mesh references) it is made of.
#[derive(Clone, Debug)]
pub struct ActorDef {
    pub name_reference: StringReference,
    pub callback_name_reference: StringReference,
    pub fragment_references: Vec<u32>,
}

/// The placement of an actor; each field is an IEEE-754 bit pattern.
#[derive(Clone, Copy, Debug, PartialEq, Eq, Structural)]
pub struct Location {
    pub x: u32,
    pub y: u32,
    pub z: u32,
    pub rotate_x: u32,
    pub rotate_y: u32,
    pub rotate_z: u32,
}

/// An actor instance. `actor_def_reference` names an actor definition, or
/// (when positive) is the index of one in the same document.
#[derive(Clone, Debug)]
pub struct Actor {
    pub name_reference: StringReference,
    pub actor_def_reference: StringReference,
    pub location: Option<Location>,
    pub scale_factor: Option<u32>,
    pub vertex_color_reference: Option<FragmentRef>,
}

/// Per-vertex colors of an actor instance.
#[derive(Clone, Debug)]
pub struct DmRgbTrackDef {
    pub name_reference: StringReference,
    pub vertex_colors: Vec<u32>,
}

/// A reference to a `DmRgbTrackDef`.
#[derive(Clone, Debug)]
pub struct DmRgbTrack {
    pub name_reference: StringReference,
    pub reference: FragmentRef,
}

/// Any record kind that the decoders do not read.
#[derive(Clone, Debug)]
pub struct OtherFragment {
    pub name_reference: StringReference,
    pub type_id: u32,
}

/// One record of a document.
#[derive(Clone, Debug)]
pub enum Fragment {
    BmInfo(BmInfo),
    SimpleSpriteDef(SimpleSpriteDef),
    SimpleSprite(SimpleSprite),
    MaterialDef(MaterialDef),
    MaterialPalette(MaterialPalette),
    DmSpriteDef(DmSpriteDef),
    DmSpriteDef2(DmSpriteDef2),
    DmSprite(DmSprite),
    HierarchicalSpriteDef(HierarchicalSpriteDef),
    TrackDef(TrackDef),
    Track(Track),
    ActorDef(ActorDef),
    Actor(Actor),
    DmRgbTrackDef(DmRgbTrackDef),
    DmRgbTrack(DmRgbTrack),
    Other(OtherFragment),
}

impl Fragment {
    pub open spec fn spec_kind(&self) -> FragmentKind {
        match self {
            Fragment::BmInfo(_) => FragmentKind::BmInfo,
            Fragment::SimpleSpriteDef(_) => FragmentKind::SimpleSpriteDef,
            Fragment::SimpleSprite(_) => FragmentKind::SimpleSprite,
            Fragment::MaterialDef(_) => FragmentKind::MaterialDef,
            Fragment::MaterialPalette(_) => FragmentKind::MaterialPalette,
            Fragment::DmSpriteDef(_) => FragmentKind::DmSpriteDef,
            Fragment::DmSpriteDef2(_) => FragmentKind::DmSpriteDef2,
            Fragment::DmSprite(_) => FragmentKind::DmSprite,
            Fragment::HierarchicalSpriteDef(_) => FragmentKind::HierarchicalSpriteDef,
            Fragment::TrackDef(_) => FragmentKind::TrackDef,
            Fragment::Track(_) => FragmentKind::Track,
            Fragment::ActorDef(_) => FragmentKind::ActorDef,
            Fragment::Actor(_) => FragmentKind::Actor,
            Fragment::DmRgbTrackDef(_) => FragmentKind::DmRgbTrackDef,
            Fragment::DmRgbTrack(_) => FragmentKind::DmRgbTrack,
            Fragment::Other(_) => FragmentKind::Other,
        }
    }

    /// The kind of this record.
    #[verifier::when_used_as_spec(spec_kind)]
    pub fn kind(&self) -> (k: FragmentKind)
        ensures
            k == self.spec_kind(),
    {
        match self {
            Fragment::BmInfo(_) => FragmentKind::BmInfo,
            Fragment::SimpleSpriteDef(_) => FragmentKind::SimpleSpriteDef,
            Fragment::SimpleSprite(_) => FragmentKind::SimpleSprite,
            Fragment::MaterialDef(_) => FragmentKind::MaterialDef,
            Fragment::MaterialPalette(_) => FragmentKind::MaterialPalette,
            Fragment::DmSpriteDef(_) => FragmentKind::DmSpriteDef,
            Fragment::DmSpriteDef2(_) => FragmentKind::DmSpriteDef2,
            Fragment::DmSprite(_) => FragmentKind::DmSprite,
            Fragment::HierarchicalSpriteDef(_) => FragmentKind::HierarchicalSpriteDef,
            Fragment::TrackDef(_) => FragmentKind::TrackDef,
            Fragment::Track(_) => FragmentKind::Track,
            Fragment::ActorDef(_) => FragmentKind::ActorDef,
            Fragment::Actor(_) => FragmentKind::Actor,
            Fragment::DmRgbTrackDef(_) => FragmentKind::DmRgbTrackDef,
            Fragment::DmRgbTrack(_) => FragmentKind::DmRgbTrack,
            Fragment::Other(_) => FragmentKind::Other,
        }
    }

    pub open spec fn spec_name_reference(&self) -> StringReference {
        match self {
            Fragment::BmInfo(f) => f.name_reference,
            Fragment::SimpleSpriteDef(f) => f.name_reference,
            Fragment::SimpleSprite(f) => f.name_reference,
            Fragment::MaterialDef(f) => f.name_reference,
            Fragment::MaterialPalette(f) => f.name_reference,
            Fragment::DmSpriteDef(f) => f.name_reference,
            Fragment::DmSpriteDef2(f) => f.name_reference,
            Fragment::DmSprite(f) => f.name_reference,
            Fragment::HierarchicalSpriteDef(f) => f.name_reference,
            Fragment::TrackDef(f) => f.name_reference,
            Fragment::Track(f) => f.name_reference,
            Fragment::ActorDef(f) => f.name_reference,
            Fragment::Actor(f) => f.name_reference,
            Fragment::DmRgbTrackDef(f) => f.name_reference,
            Fragment::DmRgbTrack(f) => f.name_reference,
            Fragment::Other(f) => f.name_reference,
        }
    }

    /// The reference to this record's name in the string table.
    #[verifier::when_used_as_spec(spec_name_reference)]
    pub fn name_reference(&self) -> (r: StringReference)
        ensures
            r == self.spec_name_reference(),
    {
        match self {
            Fragment::BmInfo(f) => f.name_reference,
            Fragment::SimpleSpriteDef(f) => f.name_reference,
            Fragment::SimpleSprite(f) => f.name_reference,
            Fragment::MaterialDef(f) => f.name_reference,
            Fragment::MaterialPalette(f) => f.name_reference,
            Fragment::DmSpriteDef(f) => f.name_reference,
            Fragment::DmSpriteDef2(f) => f.name_reference,
            Fragment::DmSprite(f) => f.name_reference,
            Fragment::HierarchicalSpriteDef(f) => f.name_reference,
            Fragment::TrackDef(f) => f.name_reference,
            Fragment::Track(f) => f.name_reference,
            Fragment::ActorDef(f) => f.name_reference,
            Fragment::Actor(f) => f.name_reference,
            Fragment::DmRgbTrackDef(f) => f.name_reference,
            Fragment::DmRgbTrack(f) => f.name_reference,
            Fragment::Other(f) => f.name_reference,
        }
    }
}

} // verus!
