use eqloader::document::Document;
use eqloader::error::WldError;
use eqloader::fragment::{
    BmInfo, Fragment, FragmentKind, FragmentRef, MaterialDef, OtherFragment, SimpleSprite,
    SimpleSpriteDef, StringReference,
};
use eqloader::material::S3DMaterial;
use eqloader::mesh::S3DMesh;

/// A string table holding `names`, each null-terminated, after a leading
/// zero byte; returns the table and a reference to each name.
fn table(names: &[&str]) -> (Vec<u8>, Vec<StringReference>) {
    let mut t = vec![0u8];
    let mut refs = Vec::new();
    for n in names {
        refs.push(StringReference(-(t.len() as i32)));
        t.extend_from_slice(n.as_bytes());
        t.push(0);
    }
    (t, refs)
}

fn other(r: StringReference) -> Fragment {
    Fragment::Other(OtherFragment { name_reference: r, type_id: 0x22 })
}

fn material_doc() -> Document {
    let (strings, r) = table(&["WALL_MDF", "WALL_SPRITE", "WALL_SDEF", "WALL1.BMP"]);
    let frags = vec![
        Fragment::BmInfo(BmInfo { name_reference: r[3], entries: vec![b"WALL1.BMP".to_vec(), b"Wall2.Bmp".to_vec()] }),
        Fragment::SimpleSpriteDef(SimpleSpriteDef {
            name_reference: r[2],
            sleep: Some(250),
            frame_references: vec![FragmentRef::Index(1)],
        }),
        Fragment::SimpleSprite(SimpleSprite { name_reference: r[1], reference: FragmentRef::Index(2) }),
        Fragment::MaterialDef(MaterialDef {
            name_reference: r[0],
            flags: 2,
            render_method: 0x8000_0013,
            reference: FragmentRef::Index(3),
        }),
    ];
    Document::new(frags, strings)
}

#[test]
fn get_by_index_in_range_is_some() {
    let (strings, r) = table(&["A", "B", "C"]);
    let doc = Document::new(vec![other(r[0]), other(r[1]), other(r[2])], strings);
    for i in 1..=3u32 {
        let f = doc.get_by_index(i).unwrap();
        assert_eq!(f.name_reference(), r[i as usize - 1]);
    }
}

#[test]
fn get_by_index_zero_or_past_end_is_out_of_range() {
    let (strings, r) = table(&["A", "B"]);
    let doc = Document::new(vec![other(r[0]), other(r[1])], strings);
    assert_eq!(doc.get_by_index(0).unwrap_err(), WldError::OutOfRange { index: 0, count: 2 });
    assert_eq!(doc.get_by_index(3).unwrap_err(), WldError::OutOfRange { index: 3, count: 2 });
    assert_eq!(doc.fragment_count(), 2);
}

#[test]
fn string_references_resolve_or_mean_no_name() {
    let (strings, r) = table(&["HELLO", "WORLD"]);
    let len = strings.len() as i32;
    let doc = Document::new(vec![], strings);
    assert_eq!(doc.get_string(r[1]).unwrap(), Some(b"WORLD".to_vec()));
    assert_eq!(doc.get_string(StringReference(0)).unwrap(), None);
    assert_eq!(doc.get_string(StringReference(5)).unwrap(), None);
    assert_eq!(
        doc.get_string(StringReference(-len)).unwrap_err(),
        WldError::InvalidStringRef { reference: StringReference(-len) }
    );
    assert!(doc.string_equals(r[0], &b"HELLO".to_vec()));
    assert!(!doc.string_equals(r[0], &b"HELL".to_vec()));
    assert!(!doc.string_equals(r[0], &b"HELLOS".to_vec()));
}

#[test]
fn string_without_terminator_runs_to_table_end() {
    let doc = Document::new(vec![], b"\0ABC".to_vec());
    assert_eq!(doc.get_string(StringReference(-1)).unwrap(), Some(b"ABC".to_vec()));
}

#[test]
fn resolve_by_name_finds_first_of_kind() {
    let (strings, r) = table(&["X", "WALL_MDF"]);
    let mut doc = material_doc();
    let base = doc.strings.len() as i32;
    doc.strings.extend_from_slice(&strings[1..]);
    let x = StringReference(r[0].0 - base + 1);
    let name = StringReference(r[1].0 - base + 1);
    doc.fragments.push(other(name));
    assert_eq!(doc.resolve(FragmentRef::Name(name), FragmentKind::MaterialDef), Ok(3));
    assert_eq!(doc.resolve(FragmentRef::Name(name), FragmentKind::Other), Ok(4));
    assert_eq!(
        doc.resolve(FragmentRef::Name(x), FragmentKind::MaterialDef),
        Err(WldError::BrokenReference { via: FragmentRef::Name(x) })
    );
}

#[test]
fn typed_mesh_request_on_material_is_type_mismatch() {
    let doc = material_doc();
    assert_eq!(
        S3DMesh::load(&doc, 4).unwrap_err(),
        WldError::TypeMismatch { index: 4, expected: FragmentKind::DmSpriteDef2, actual: FragmentKind::MaterialDef }
    );
    assert_eq!(
        doc.resolve(FragmentRef::Index(4), FragmentKind::DmSpriteDef2),
        Err(WldError::TypeMismatch { index: 4, expected: FragmentKind::DmSpriteDef2, actual: FragmentKind::MaterialDef })
    );
    assert_eq!(
        doc.resolve(FragmentRef::Index(9), FragmentKind::MaterialDef),
        Err(WldError::OutOfRange { index: 9, count: 4 })
    );
}

#[test]
fn indices_of_kind_keep_file_order() {
    let doc = material_doc();
    assert_eq!(doc.indices_of_kind(FragmentKind::MaterialDef), vec![4]);
    assert_eq!(doc.indices_of_kind(FragmentKind::BmInfo), vec![1]);
    assert_eq!(doc.indices_of_kind(FragmentKind::Track), Vec::<usize>::new());
}

#[test]
fn material_texture_chain_is_lower_cased() {
    let doc = material_doc();
    let m = S3DMaterial::load(&doc, 4).unwrap();
    assert_eq!(m.name(&doc).unwrap(), b"WALL_MDF".to_vec());
    assert_eq!(m.texture_filenames(&doc).unwrap(), vec![b"wall1.bmp".to_vec(), b"wall2.bmp".to_vec()]);
    assert_eq!(m.delay_ms(&doc).unwrap(), Some(250));
    assert!(m.visible(&doc));
    assert_eq!(m.shader_type_id(&doc), 0x13);
    assert_eq!(m.flags(&doc), 2);
}

#[test]
fn material_with_render_method_zero_is_invisible() {
    let mut doc = material_doc();
    if let Fragment::MaterialDef(m) = &mut doc.fragments[3] {
        m.render_method = 0;
    }
    let m = S3DMaterial::load(&doc, 4).unwrap();
    assert!(!m.visible(&doc));
    assert_eq!(m.shader_type_id(&doc), 0);
}

#[test]
fn broken_texture_chain_is_broken_reference() {
    let mut doc = material_doc();
    if let Fragment::SimpleSpriteDef(s) = &mut doc.fragments[1] {
        s.frame_references.push(FragmentRef::Index(4));
    }
    let m = S3DMaterial::load(&doc, 4).unwrap();
    assert_eq!(
        m.texture_filenames(&doc).unwrap_err(),
        WldError::BrokenReference { via: FragmentRef::Index(4) }
    );
    if let Fragment::MaterialDef(md) = &mut doc.fragments[3] {
        md.reference = FragmentRef::Index(1);
    }
    assert_eq!(
        m.texture_filenames(&doc).unwrap_err(),
        WldError::BrokenReference { via: FragmentRef::Index(1) }
    );
}

#[test]
fn texture_names_lower_case_beyond_ascii() {
    let mut doc = material_doc();
    if let Fragment::BmInfo(b) = &mut doc.fragments[0] {
        b.entries = vec!["ÉTÉ.BMP".as_bytes().to_vec()];
    }
    let m = S3DMaterial::load(&doc, 4).unwrap();
    assert_eq!(m.texture_filename(&doc).unwrap(), "été.bmp".as_bytes().to_vec());
}
