use eqloader::actor::{gd_from_frag, FragmentHandle, S3DActorDef, S3DActorInstance};
use eqloader::archive::{actorinst_wld_name, image_format, lights_wld_name, ArchiveEntry, EQArchive, ImageFormat};
use eqloader::document::Document;
use eqloader::error::WldError;
use eqloader::fragment::{
    Actor, ActorDef, Bits3, DmRgbTrack, DmRgbTrackDef, DmSprite, DmSpriteDef2, Face, Fragment,
    FragmentRef, HierarchicalSpriteDef, Location, MaterialDef, StringReference,
};
use eqloader::material::S3DMaterial;
use eqloader::mesh::{collision_faces, S3DMesh};
use eqloader::skeleton::S3DHierSprite;

fn names(list: &[&str]) -> (Vec<u8>, Vec<StringReference>) {
    let mut t = vec![0u8];
    let mut refs = Vec::new();
    for n in list {
        refs.push(StringReference(-(t.len() as i32)));
        t.extend_from_slice(n.as_bytes());
        t.push(0);
    }
    (t, refs)
}

fn mesh() -> DmSpriteDef2 {
    DmSpriteDef2 {
        name_reference: StringReference(0),
        flags: 0,
        material_list_ref: FragmentRef::Index(1),
        center: Bits3 { x: 0, y: 0, z: 0 },
        scale: 0,
        positions: vec![],
        vertex_normals: vec![],
        vertex_colors: vec![],
        texture_coordinates: vec![],
        skin_assignment_groups: vec![],
        faces: vec![],
        face_material_groups: vec![],
    }
}

/// 1 mesh, 2 mesh reference, 3 mesh reference to a non-mesh, 4 actor
/// definition, 5 color data, 6 color track, 7 actor instance, 8 skeleton,
/// 9 and 10 materials.
fn world() -> Document {
    let (strings, r) = names(&["TREE_ACTORDEF", "CB", "HUM_HS_DEF", "HUMSKIN01_MDF", "ELF_MDF", "TREE_ACTORDEF"]);
    let frags = vec![
        Fragment::DmSpriteDef2(mesh()),
        Fragment::DmSprite(DmSprite { name_reference: StringReference(0), reference: FragmentRef::Index(1) }),
        Fragment::DmSprite(DmSprite { name_reference: StringReference(0), reference: FragmentRef::Index(4) }),
        Fragment::ActorDef(ActorDef {
            name_reference: r[0],
            callback_name_reference: r[1],
            fragment_references: vec![2, 3, 1, 99],
        }),
        Fragment::DmRgbTrackDef(DmRgbTrackDef { name_reference: StringReference(0), vertex_colors: vec![7, 8, 9] }),
        Fragment::DmRgbTrack(DmRgbTrack { name_reference: StringReference(0), reference: FragmentRef::Index(5) }),
        Fragment::Actor(Actor {
            name_reference: StringReference(0),
            actor_def_reference: StringReference(4),
            location: Some(Location { x: 1.0f32.to_bits(), y: 0, z: 0, rotate_x: 0, rotate_y: 0, rotate_z: 0 }),
            scale_factor: Some(2.0f32.to_bits()),
            vertex_color_reference: Some(FragmentRef::Index(6)),
        }),
        Fragment::HierarchicalSpriteDef(HierarchicalSpriteDef {
            name_reference: r[2],
            dags: vec![],
            dm_sprites: vec![2, 3, 1],
        }),
        Fragment::MaterialDef(MaterialDef {
            name_reference: r[3],
            flags: 0,
            render_method: 1,
            reference: FragmentRef::Index(1),
        }),
        Fragment::MaterialDef(MaterialDef {
            name_reference: r[4],
            flags: 0,
            render_method: 1,
            reference: FragmentRef::Index(1),
        }),
    ];
    Document::new(frags, strings)
}

#[test]
fn handles_follow_fragment_kind() {
    let doc = world();
    assert_eq!(gd_from_frag(&doc, 1), Ok(FragmentHandle::Mesh(S3DMesh { index: 1 })));
    assert_eq!(gd_from_frag(&doc, 4), Ok(FragmentHandle::ActorDef(S3DActorDef { index: 4 })));
    assert_eq!(gd_from_frag(&doc, 7), Ok(FragmentHandle::Actor(S3DActorInstance { index: 7 })));
    assert_eq!(gd_from_frag(&doc, 8), Ok(FragmentHandle::HierSprite(S3DHierSprite { index: 8 })));
    assert_eq!(gd_from_frag(&doc, 9), Ok(FragmentHandle::Material(S3DMaterial { index: 9 })));
    assert_eq!(gd_from_frag(&doc, 5), Ok(FragmentHandle::Unknown(5)));
    assert_eq!(gd_from_frag(&doc, 11), Err(WldError::OutOfRange { index: 11, count: 10 }));
    let all: Vec<u32> = doc.meshes().iter().map(|m| m.index).collect();
    assert_eq!(all, vec![1]);
    assert_eq!(doc.at(8), gd_from_frag(&doc, 8));
}

#[test]
fn document_lists_each_kind_in_file_order() {
    let doc = world();
    assert_eq!(doc.materials(), vec![S3DMaterial { index: 9 }, S3DMaterial { index: 10 }]);
    assert_eq!(doc.actordefs(), vec![S3DActorDef { index: 4 }]);
    assert_eq!(doc.actorinstances(), vec![S3DActorInstance { index: 7 }]);
    assert_eq!(doc.hiersprites(), vec![S3DHierSprite { index: 8 }]);
}

#[test]
fn actor_definition_lists_its_meshes() {
    let doc = world();
    let a = S3DActorDef::load(&doc, 4).unwrap();
    assert_eq!(a.name(&doc).unwrap(), b"TREE_ACTORDEF".to_vec());
    assert_eq!(a.callback_name(&doc).unwrap(), b"CB".to_vec());
    assert_eq!(a.meshes(&doc), vec![1]);
    assert_eq!(S3DActorDef::load(&doc, 1).unwrap_err().clone(), WldError::TypeMismatch {
        index: 1,
        expected: eqloader::fragment::FragmentKind::ActorDef,
        actual: eqloader::fragment::FragmentKind::DmSpriteDef2,
    });
}

#[test]
fn actor_instance_reads_colors_and_zone_definition() {
    let doc = world();
    let a = S3DActorInstance::load(&doc, 7).unwrap();
    assert_eq!(a.vertex_colors(&doc).unwrap(), vec![7, 8, 9]);
    assert_eq!(a.zone_actordef(&doc).unwrap(), Some(FragmentHandle::ActorDef(S3DActorDef { index: 4 })));
    assert_eq!(a.actordef_name(&doc), Vec::<u8>::new());
    assert_eq!(a.scale(&doc), Some(2.0f32.to_bits()));
    assert_eq!(a.location(&doc).unwrap().x, 1.0f32.to_bits());
    let mut broken = world();
    if let Fragment::DmRgbTrack(t) = &mut broken.fragments[5] {
        t.reference = FragmentRef::Index(1);
    }
    assert_eq!(
        a.vertex_colors(&broken).unwrap_err(),
        WldError::BrokenReference { via: FragmentRef::Index(1) }
    );
}

#[test]
fn skeleton_meshes_and_skin_materials() {
    let doc = world();
    let s = S3DHierSprite::load(&doc, 8).unwrap();
    assert_eq!(s.meshes(&doc).unwrap(), vec![1]);
    assert_eq!(s.skin_material_names(&doc).unwrap(), vec![b"HUMSKIN01_MDF".to_vec()]);
    let mut bad = world();
    if let Fragment::HierarchicalSpriteDef(h) = &mut bad.fragments[7] {
        h.dm_sprites.push(40);
    }
    assert_eq!(s.meshes(&bad).unwrap_err(), WldError::OutOfRange { index: 40, count: 10 });
}

#[test]
fn material_without_textures_has_no_texture_filename() {
    let doc = world();
    let m = S3DMaterial::load(&doc, 9).unwrap();
    assert_eq!(
        m.texture_filename(&doc).unwrap_err(),
        WldError::BrokenReference { via: FragmentRef::Index(1) }
    );
}

#[test]
fn passable_faces_do_not_collide() {
    let faces = vec![
        Face { flags: 0, vertex_indexes: (0, 1, 2) },
        Face { flags: 0x10, vertex_indexes: (3, 4, 5) },
        Face { flags: 0x01, vertex_indexes: (6, 7, 8) },
    ];
    let kept: Vec<(u16, u16, u16)> = collision_faces(&faces).iter().map(|f| f.vertex_indexes).collect();
    assert_eq!(kept, vec![(0, 1, 2), (6, 7, 8)]);
}

#[test]
fn archive_lookup_by_name() {
    let a = EQArchive::new(
        b"gfaydark".to_vec(),
        vec![
            ArchiveEntry { name: b"gfaydark.wld".to_vec(), data: vec![1, 2] },
            ArchiveEntry { name: b"tree.bmp".to_vec(), data: vec![3] },
            ArchiveEntry { name: b"tree.bmp".to_vec(), data: vec![4] },
        ],
    );
    assert_eq!(a.get_filenames(), vec![b"gfaydark.wld".to_vec(), b"tree.bmp".to_vec(), b"tree.bmp".to_vec()]);
    assert_eq!(a.main_wld_name(), b"gfaydark.wld".to_vec());
    assert_eq!(a.get(&a.main_wld_name()), Some(&vec![1, 2]));
    assert_eq!(a.get_bytes(&b"tree.bmp".to_vec()), vec![3]);
    assert_eq!(a.get_bytes(&b"missing".to_vec()), Vec::<u8>::new());
    assert_eq!(a.find(&b"missing".to_vec()), None);
    assert_eq!(lights_wld_name(), b"lights.wld".to_vec());
    assert_eq!(actorinst_wld_name(), b"objects.wld".to_vec());
    assert_eq!(image_format(&b"tree.bmp".to_vec()), ImageFormat::Bmp);
    assert_eq!(image_format(&b"tree.dds".to_vec()), ImageFormat::Dds);
    assert_eq!(image_format(&b"tree.wav".to_vec()), ImageFormat::Unsupported);
}
