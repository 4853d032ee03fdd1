use ddsfile::{D3DFormat, Dds, NewD3dParams};
use regnum_assets::asset::attribute::{read_attribute, AssetAttribute};
use regnum_assets::asset::text::content::TextNode;
use regnum_assets::errors::AssetErrors;
use regnum_assets::{AssetBookmark, AssetContent, AssetData, AssetType};

fn u32le(v: &mut Vec<u8>, x: u32) {
    v.extend_from_slice(&x.to_le_bytes());
}

fn preamble(
    v: &mut Vec<u8>,
    uid: &str,
    resource_name: &[u8],
    size: u32,
    rid: u32,
    ty: &str,
    asset_name: &[u8],
) {
    v.extend_from_slice(b"PAIR");
    u32le(v, 0);
    v.push(uid.len() as u8);
    v.extend_from_slice(&[0u8; 16]);
    v.extend_from_slice(uid.as_bytes());
    v.push(resource_name.len() as u8);
    v.extend_from_slice(resource_name);
    u32le(v, 0);
    u32le(v, size);
    v.extend_from_slice(&[0u8; 16]);
    v.extend_from_slice(&[1, 0, 0, 0]);
    u32le(v, rid);
    u32le(v, 0);
    u32le(v, ty.len() as u32);
    v.extend_from_slice(ty.as_bytes());
    u32le(v, asset_name.len() as u32);
    v.extend_from_slice(asset_name);
    v.extend_from_slice(&[0u8; 16]);
}

fn bookmark(asset_type: AssetType, rid: u32, node_end: usize, size: u32) -> AssetBookmark {
    AssetBookmark {
        resource_id: Some(rid),
        asset_type,
        name: Some("fixture".to_string()),
        node_start: node_end.saturating_sub(23),
        node_end,
        node_next: node_end + 1000,
        size,
    }
}

fn sound_content(filename: &str, payload: &[u8]) -> Vec<u8> {
    let mut c = Vec::new();
    u32le(&mut c, 8);
    c.extend_from_slice(b"filename");
    c.push(2);
    u32le(&mut c, filename.len() as u32);
    c.extend_from_slice(filename.as_bytes());
    u32le(&mut c, 14);
    c.extend_from_slice(b"file_in_buffer");
    c.push(4);
    u32le(&mut c, payload.len() as u32);
    c.extend_from_slice(payload);
    c
}

#[test]
fn sound_asset_decodes_filename_and_payload() {
    let payload: Vec<u8> = vec![9, 8, 7, 6, 5];
    let content = sound_content("combat_pain_male_3.ogg", &payload);
    let size = content.len() as u32;

    let mut db = vec![0u8; 23];
    preamble(&mut db, "resource_50677", b"SOUND::pain", size, 50677, "SOUND", b"pain");
    db.extend_from_slice(&content);

    let bm = bookmark(AssetType::Sound, 50677, 23, size);
    let asset = AssetData::read(&db, &bm).unwrap();
    assert_eq!(asset.asset_type, AssetType::Sound);
    assert_eq!(asset.resource_id, 50677);
    assert_eq!(asset.uid, "resource_50677");
    assert_eq!(asset.resource_name, "SOUND::pain");
    assert_eq!(asset.asset_name, "pain");
    match asset.content {
        AssetContent::Sound { filename, size, bytes } => {
            assert_eq!(filename, "combat_pain_male_3.ogg");
            assert_eq!(size as usize, payload.len());
            assert_eq!(bytes, payload);
        },
        _ => panic!("expected a sound payload"),
    }
}

#[test]
fn music_asset_decodes_like_sound() {
    let payload: Vec<u8> = vec![1; 64];
    let content = sound_content("regnum_ignis.ogg", &payload);
    let size = content.len() as u32;

    let mut db = vec![0u8; 23];
    preamble(&mut db, "resource_56934", b"MUSIC::ignis", size, 56934, "MUSIC", b"ignis");
    db.extend_from_slice(&content);

    let bm = bookmark(AssetType::Music, 56934, 23, size);
    let asset = AssetData::read(&db, &bm).unwrap();
    assert_eq!(asset.asset_type, AssetType::Music);
    assert_eq!(asset.resource_id, 56934);
    match asset.content {
        AssetContent::Sound { filename, bytes, .. } => {
            assert_eq!(filename, "regnum_ignis.ogg");
            assert_eq!(bytes.len(), 64);
        },
        _ => panic!("expected a sound payload"),
    }
}

#[test]
fn sound_without_payload_is_not_supported() {
    let mut db = vec![0u8; 23];
    preamble(&mut db, "resource_1", b"SOUND::empty", 4, 1, "SOUND", b"empty");

    let bm = bookmark(AssetType::Sound, 1, 23, 4);
    let asset = AssetData::read(&db, &bm).unwrap();
    assert!(matches!(asset.content, AssetContent::NotSupported));
}

#[test]
fn declared_size_must_match_bookmark() {
    let content = sound_content("x.ogg", &[1, 2, 3]);
    let size = content.len() as u32;

    let mut db = vec![0u8; 23];
    preamble(&mut db, "resource_2", b"SOUND::x", size + 1, 2, "SOUND", b"x");
    db.extend_from_slice(&content);

    let bm = bookmark(AssetType::Sound, 2, 23, size);
    match AssetData::read(&db, &bm) {
        Err(AssetErrors::ParserError(label)) => assert!(label.contains("size")),
        _ => panic!("expected the size mismatch to fail the decode"),
    }
}

#[test]
fn text_asset_classifies_nodes() {
    let raw = "[start]\r\n[1]\r\nHello\r\n[end]";
    let mut content = Vec::new();
    u32le(&mut content, 2);
    content.extend_from_slice(b"r1");
    content.push(2);
    u32le(&mut content, raw.len() as u32);
    content.extend_from_slice(raw.as_bytes());
    content.extend_from_slice(b"RIAP");
    let size = content.len() as u32;

    let mut db = vec![0u8; 23];
    preamble(&mut db, "resource_3", b"TEXT::quest", size, 3, "TEXT", b"quest");
    db.extend_from_slice(&content);

    let bm = bookmark(AssetType::Text, 3, 23, size);
    let asset = AssetData::read(&db, &bm).unwrap();
    match asset.content {
        AssetContent::Text { contents } => {
            assert_eq!(contents.len(), 1);
            assert_eq!(contents[0].refs, vec!["r1".to_string()]);
            let nodes = &contents[0].nodes;
            assert_eq!(nodes.len(), 4);
            assert!(matches!(nodes[0], TextNode::Start));
            assert!(matches!(nodes[1], TextNode::Stage(1)));
            match &nodes[2] {
                TextNode::Content(t) => assert_eq!(t, "Hello"),
                other => panic!("expected content, got {:?}", other),
            }
            assert!(matches!(nodes[3], TextNode::End));
        },
        _ => panic!("expected a text payload"),
    }
}

#[test]
fn texture_asset_exposes_dimensions() {
    let dds = Dds::new_d3d(NewD3dParams {
        height: 4,
        width: 4,
        depth: None,
        format: D3DFormat::A8B8G8R8,
        mipmap_levels: None,
        caps2: None,
    })
    .unwrap();
    let mut dds_bytes = Vec::new();
    dds.write(&mut dds_bytes).unwrap();

    let mut content = Vec::new();
    content.push(0x10);
    u32le(&mut content, 0);
    u32le(&mut content, 256);
    u32le(&mut content, 256);
    u32le(&mut content, 0);
    content.push(0x64);
    content.extend_from_slice(&[0u8; 48]);
    content.push(0);
    content.extend_from_slice(&dds_bytes);
    let size = content.len() as u32;

    let mut db = vec![0u8; 23];
    preamble(&mut db, "resource_4", b"TEXTURE::grass", size, 4, "TEXTURE", b"grass");
    db.extend_from_slice(&content);

    let bm = bookmark(AssetType::Texture, 4, 23, size);
    let asset = AssetData::read(&db, &bm).unwrap();
    match asset.content {
        AssetContent::Texture { width, height, dds } => {
            assert_eq!(width, 256);
            assert_eq!(height, 256);
            assert!(!dds.data.is_empty());
        },
        _ => panic!("expected a texture payload"),
    }
}

#[test]
fn bad_start_marker_fails() {
    let mut db = vec![0u8; 23];
    preamble(&mut db, "resource_5", b"SOUND::x", 4, 5, "SOUND", b"x");
    db[23] = b'X';
    let bm = bookmark(AssetType::Sound, 5, 23, 4);
    assert!(matches!(AssetData::read(&db, &bm), Err(AssetErrors::ParserError(_))));
}

#[test]
fn unknown_attribute_tag_fails_with_that_tag() {
    let mut v = Vec::new();
    u32le(&mut v, 3);
    v.extend_from_slice(b"XYZ");
    match read_attribute(&v, 0) {
        Err(AssetErrors::UnknownAttributeError(tag)) => assert_eq!(tag, "XYZ"),
        other => panic!("expected an unknown attribute error, got {:?}", other),
    }
}

#[test]
fn attribute_end_marker() {
    let v = b"RIAP".to_vec();
    let (attr, pos) = read_attribute(&v, 0).unwrap();
    assert!(matches!(attr, AssetAttribute::End));
    assert_eq!(pos, 4);
}

#[test]
fn attribute_blank_record() {
    let v = vec![0u8; 16];
    let (attr, pos) = read_attribute(&v, 0).unwrap();
    assert!(matches!(attr, AssetAttribute::Blank));
    assert_eq!(pos, 16);
}

#[test]
fn attribute_start_record() {
    let mut v = Vec::new();
    u32le(&mut v, 1);
    u32le(&mut v, 77);
    u32le(&mut v, 5);
    let (attr, pos) = read_attribute(&v, 0).unwrap();
    match attr {
        AssetAttribute::Start { resource_id, unknown } => {
            assert_eq!(resource_id, 77);
            assert_eq!(unknown, 5);
        },
        other => panic!("expected a start record, got {:?}", other),
    }
    assert_eq!(pos, 12);
}

#[test]
fn attribute_filename() {
    let mut v = Vec::new();
    u32le(&mut v, 8);
    v.extend_from_slice(b"filename");
    v.push(2);
    u32le(&mut v, 3);
    v.extend_from_slice(b"abc");
    let (attr, _) = read_attribute(&v, 0).unwrap();
    match attr {
        AssetAttribute::Filename(f) => assert_eq!(f, "abc"),
        other => panic!("expected a filename, got {:?}", other),
    }
}

#[test]
fn attribute_filename_bad_flag_fails() {
    let mut v = Vec::new();
    u32le(&mut v, 8);
    v.extend_from_slice(b"filename");
    v.push(3);
    u32le(&mut v, 3);
    v.extend_from_slice(b"abc");
    assert!(matches!(read_attribute(&v, 0), Err(AssetErrors::ParserError(_))));
}

#[test]
fn attribute_buffer() {
    let mut v = Vec::new();
    u32le(&mut v, 14);
    v.extend_from_slice(b"file_in_buffer");
    v.push(4);
    u32le(&mut v, 3);
    v.extend_from_slice(&[1, 2, 3]);
    let (attr, _) = read_attribute(&v, 0).unwrap();
    match attr {
        AssetAttribute::Content { size, bytes } => {
            assert_eq!(size, 3);
            assert_eq!(bytes, vec![1, 2, 3]);
        },
        other => panic!("expected a buffer, got {:?}", other),
    }
}

#[test]
fn attribute_named_material() {
    let mut v = Vec::new();
    u32le(&mut v, 8);
    v.extend_from_slice(b"MATERIAL");
    u32le(&mut v, 4);
    v.extend_from_slice(b"wood");
    let (attr, _) = read_attribute(&v, 0).unwrap();
    match attr {
        AssetAttribute::Material(m) => assert_eq!(m, "wood"),
        other => panic!("expected a material, got {:?}", other),
    }
}

#[test]
fn error_messages_carry_their_tag() {
    let e = AssetErrors::UnknownAttributeError("blob".to_string());
    assert_eq!(e.message(), "unknown asset attribute: blob");
    let e = AssetErrors::UnknownAssetTypeError("GADGET".to_string());
    assert_eq!(e.message(), "unknown asset type: GADGET");
    let e = AssetErrors::ParserError("asset size".to_string());
    assert_eq!(e.message(), "could not align data to the expected format: asset size");
}

#[test]
fn garbage_image_container_fails() {
    let mut content = Vec::new();
    content.push(0x10);
    u32le(&mut content, 0);
    u32le(&mut content, 8);
    u32le(&mut content, 8);
    u32le(&mut content, 0);
    content.push(0x64);
    content.extend_from_slice(&[0u8; 48]);
    content.push(0);
    content.extend_from_slice(b"this is no image container at all");
    let size = content.len() as u32;

    let mut db = vec![0u8; 23];
    preamble(&mut db, "resource_6", b"TEXTURE::junk", size, 6, "TEXTURE", b"junk");
    db.extend_from_slice(&content);

    let bm = bookmark(AssetType::Texture, 6, 23, size);
    match AssetData::read(&db, &bm) {
        Err(AssetErrors::ParserError(label)) => assert!(label.contains("dds")),
        _ => panic!("expected the image decode to fail"),
    }
}
