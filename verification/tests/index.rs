use regnum_assets::errors::AssetErrors;
use regnum_assets::{AssetType, ResourceIndex};

fn u16le(v: &mut Vec<u8>, x: u16) {
    v.extend_from_slice(&x.to_le_bytes());
}

fn u32le(v: &mut Vec<u8>, x: u32) {
    v.extend_from_slice(&x.to_le_bytes());
}

fn push_node(v: &mut Vec<u8>, start: u32, next: u32, end: u32) {
    u32le(v, start);
    u32le(v, 0);
    u32le(v, next);
    u32le(v, 0);
    u32le(v, end);
}

fn push_item(v: &mut Vec<u8>, uid: &str, name: &[u8], start: u32, size: u32) {
    u16le(v, uid.len() as u16);
    v.extend_from_slice(uid.as_bytes());
    v.push(0);
    u32le(v, start);
    u32le(v, 0);
    u32le(v, size);
    u16le(v, name.len() as u16);
    v.extend_from_slice(name);
    u16le(v, 0);
    u16le(v, 0);
}

fn index_header(v: &mut Vec<u8>, node_count: u32) {
    u32le(v, 0);
    u32le(v, 0);
    u32le(v, node_count);
}

/// One material named `foo` under uid `resource_68070`.
fn material_index() -> Vec<u8> {
    let mut v = Vec::new();
    index_header(&mut v, 2);
    push_node(&mut v, 0, 60, 23);
    push_node(&mut v, 100, 200, 123);
    u32le(&mut v, 1);
    push_item(&mut v, "resource_68070", b"MATERIAL::foo", 100, 50);
    v
}

#[test]
fn material_record_resolves() {
    let index = ResourceIndex::read(&material_index(), false).unwrap();
    assert_eq!(index.bookmarks.len(), 1);

    let found = index.get_by_resource_id(68070).expect("bookmark should be found");
    assert_eq!(found.resource_id, Some(68070));
    assert_eq!(found.asset_type, AssetType::Material);
    assert_eq!(found.name, Some("foo".to_string()));
    assert_eq!(found.node_start, 100);
    assert_eq!(found.node_end, 123);
    assert_eq!(found.node_next, 200);
    assert_eq!(found.size, 50);
}

fn mixed_index() -> Vec<u8> {
    let mut v = Vec::new();
    index_header(&mut v, 4);
    push_node(&mut v, 0, 0, 23);
    push_node(&mut v, 300, 400, 323);
    push_node(&mut v, 100, 200, 123);
    push_node(&mut v, 200, 300, 223);
    u32le(&mut v, 3);
    push_item(&mut v, "resource_30", b"MATERIAL::third", 300, 3);
    push_item(&mut v, "resource_10", b"MATERIAL::first", 100, 1);
    push_item(&mut v, "resource_20", b"SOUND::second", 200, 2);
    v
}

#[test]
fn filter_by_type_partitions_catalog() {
    let index = ResourceIndex::read(&mixed_index(), false).unwrap();
    assert_eq!(index.bookmarks.len(), 3);

    let all_types = [
        AssetType::Material,
        AssetType::Animation,
        AssetType::Mesh,
        AssetType::Image,
        AssetType::Text,
        AssetType::Binary,
        AssetType::Texture,
        AssetType::Font,
        AssetType::Effect,
        AssetType::Music,
        AssetType::Sound,
        AssetType::Character,
        AssetType::Auth,
        AssetType::MapObject,
        AssetType::TerrainRegion,
        AssetType::WorldMap,
    ];
    let mut total = 0;
    for t in all_types {
        total += index.filter_by_type(t).len();
    }
    assert_eq!(total, index.bookmarks.len());
    assert_eq!(index.filter_by_type(AssetType::Material).len(), 2);
    assert_eq!(index.filter_by_type(AssetType::Sound).len(), 1);
    assert_eq!(index.filter_by_type(AssetType::Texture).len(), 0);
}

#[test]
fn lookup_returns_each_bookmark() {
    let index = ResourceIndex::read(&mixed_index(), false).unwrap();
    for b in &index.bookmarks {
        let id = b.resource_id.expect("fixture ids are all numeric");
        let found = index.get_by_resource_id(id).expect("id should be found");
        assert_eq!(found.resource_id, b.resource_id);
        assert_eq!(found.asset_type, b.asset_type);
        assert_eq!(found.name, b.name);
        assert_eq!(found.node_start, b.node_start);
        assert_eq!(found.size, b.size);
    }
    assert!(index.get_by_resource_id(999).is_none());
}

#[test]
fn bookmarks_sorted_by_id() {
    let index = ResourceIndex::read(&mixed_index(), false).unwrap();
    let ids: Vec<Option<u32>> = index.bookmarks.iter().map(|b| b.resource_id).collect();
    assert_eq!(ids, vec![Some(10), Some(20), Some(30)]);
}

#[test]
fn node_span_is_fixed() {
    let index = ResourceIndex::read(&mixed_index(), false).unwrap();
    for b in &index.bookmarks {
        assert_eq!(b.node_end - b.node_start, 23);
    }
}

#[test]
fn corrupt_node_span_fails() {
    let mut v = Vec::new();
    index_header(&mut v, 2);
    push_node(&mut v, 0, 0, 23);
    push_node(&mut v, 100, 200, 124);
    u32le(&mut v, 1);
    push_item(&mut v, "resource_1", b"MATERIAL::x", 100, 5);
    match ResourceIndex::read(&v, false) {
        Err(AssetErrors::ParserError(_)) => {},
        other => panic!("expected a parser error, got {:?}", other.map(|i| i.bookmarks.len())),
    }
}

#[test]
fn unknown_type_tag_fails() {
    let mut v = Vec::new();
    index_header(&mut v, 2);
    push_node(&mut v, 0, 0, 23);
    push_node(&mut v, 100, 200, 123);
    u32le(&mut v, 1);
    push_item(&mut v, "resource_1", b"BOGUS::x", 100, 5);
    match ResourceIndex::read(&v, false) {
        Err(AssetErrors::UnknownAssetTypeError(t)) => assert_eq!(t, "BOGUS"),
        other => panic!(
            "expected an unknown asset type error, got {:?}",
            other.map(|i| i.bookmarks.len())
        ),
    }
}

#[test]
fn legacy_code_page_name_decodes() {
    let mut v = Vec::new();
    index_header(&mut v, 2);
    push_node(&mut v, 0, 0, 23);
    push_node(&mut v, 100, 200, 123);
    u32le(&mut v, 1);
    let mut name: Vec<u8> = b"MATERIAL::caf".to_vec();
    name.push(0xE9);
    push_item(&mut v, "resource_7", &name, 100, 5);
    let index = ResourceIndex::read(&v, false).unwrap();
    let found = index.get_by_resource_id(7).unwrap();
    assert_eq!(found.name, Some("caf\u{e9}".to_string()));
}

#[test]
fn uid_without_numeric_suffix_has_no_id() {
    let mut v = Vec::new();
    index_header(&mut v, 2);
    push_node(&mut v, 0, 0, 23);
    push_node(&mut v, 100, 200, 123);
    u32le(&mut v, 1);
    push_item(&mut v, "plainuid", b"MATERIAL::x", 100, 5);
    let index = ResourceIndex::read(&v, false).unwrap();
    assert_eq!(index.bookmarks.len(), 1);
    assert_eq!(index.bookmarks[0].resource_id, None);
    assert!(index.get_by_resource_id(0).is_none());
}

#[test]
fn character_roster_layout_reads_char_name() {
    let mut v = Vec::new();
    index_header(&mut v, 2);
    push_node(&mut v, 0, 0, 23);
    push_node(&mut v, 100, 200, 123);
    u32le(&mut v, 1);
    let uid = "character_5";
    u16le(&mut v, uid.len() as u16);
    v.extend_from_slice(uid.as_bytes());
    v.push(0);
    u32le(&mut v, 100);
    u32le(&mut v, 0);
    u32le(&mut v, 9);
    let name = b"mesh";
    u16le(&mut v, name.len() as u16);
    v.extend_from_slice(name);
    let char_name = b"Hero";
    u16le(&mut v, char_name.len() as u16);
    v.extend_from_slice(char_name);
    v.push(0);
    let index = ResourceIndex::read(&v, true).unwrap();
    let found = index.get_by_resource_id(5).unwrap();
    assert_eq!(found.asset_type, AssetType::Character);
    assert_eq!(found.name, Some("Hero".to_string()));
}

#[test]
fn auth_uid_resolves_to_auth_type() {
    let mut v = Vec::new();
    index_header(&mut v, 2);
    push_node(&mut v, 0, 0, 23);
    push_node(&mut v, 100, 200, 123);
    u32le(&mut v, 1);
    push_item(&mut v, "pcauth", b"whoever", 100, 5);
    let index = ResourceIndex::read(&v, false).unwrap();
    assert_eq!(index.bookmarks.len(), 1);
    assert_eq!(index.bookmarks[0].asset_type, AssetType::Auth);
    assert_eq!(index.bookmarks[0].name, Some("pcauth".to_string()));
}

#[test]
fn nonzero_reserved_byte_fails() {
    let mut v = Vec::new();
    index_header(&mut v, 2);
    push_node(&mut v, 0, 0, 23);
    push_node(&mut v, 100, 200, 123);
    u32le(&mut v, 1);
    let uid = "resource_1";
    u16le(&mut v, uid.len() as u16);
    v.extend_from_slice(uid.as_bytes());
    v.push(5);
    u32le(&mut v, 100);
    u32le(&mut v, 0);
    u32le(&mut v, 5);
    let name = b"MATERIAL::x";
    u16le(&mut v, name.len() as u16);
    v.extend_from_slice(name);
    u16le(&mut v, 0);
    u16le(&mut v, 0);
    assert!(matches!(ResourceIndex::read(&v, false), Err(AssetErrors::ParserError(_))));
}

#[test]
fn truncated_index_fails() {
    let data = material_index();
    assert!(matches!(
        ResourceIndex::read(&data[..data.len() - 4], false),
        Err(AssetErrors::ParserError(_))
    ));
    assert!(matches!(ResourceIndex::read(&data[..8], false), Err(AssetErrors::ParserError(_))));
}

#[test]
fn legacy_code_page_is_not_latin1() {
    // Byte 0x80 decodes to the euro sign under the legacy code page, not to
    // the C1 control character it would be under a plain identity mapping.
    let mut v = Vec::new();
    index_header(&mut v, 2);
    push_node(&mut v, 0, 0, 23);
    push_node(&mut v, 100, 200, 123);
    u32le(&mut v, 1);
    let mut name: Vec<u8> = b"MATERIAL::price".to_vec();
    name.push(0x80);
    push_item(&mut v, "resource_8", &name, 100, 5);
    let index = ResourceIndex::read(&v, false).unwrap();
    let found = index.get_by_resource_id(8).unwrap();
    assert_eq!(found.name, Some("price\u{20ac}".to_string()));
}

#[test]
fn invalid_utf8_uid_fails() {
    let mut v = Vec::new();
    index_header(&mut v, 2);
    push_node(&mut v, 0, 0, 23);
    push_node(&mut v, 100, 200, 123);
    u32le(&mut v, 1);
    u16le(&mut v, 2);
    v.extend_from_slice(&[0xFF, 0xFE]);
    v.push(0);
    u32le(&mut v, 100);
    u32le(&mut v, 0);
    u32le(&mut v, 5);
    let name = b"MATERIAL::x";
    u16le(&mut v, name.len() as u16);
    v.extend_from_slice(name);
    u16le(&mut v, 0);
    u16le(&mut v, 0);
    assert!(matches!(ResourceIndex::read(&v, false), Err(AssetErrors::ParserError(_))));
}
