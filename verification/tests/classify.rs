use regnum_assets::asset::text::content::TextNode;
use regnum_assets::asset::text::parse::{delimited_digit, delimited_text, parse_text};
use regnum_assets::AssetType;

#[test]
fn classify_start_marker() {
    assert!(matches!(parse_text("[start]"), TextNode::Start));
    assert!(matches!(parse_text("  [start]  "), TextNode::Start));
}

#[test]
fn classify_end_marker() {
    assert!(matches!(parse_text("[end]"), TextNode::End));
    assert!(matches!(parse_text("\t[end]\r\n"), TextNode::End));
}

#[test]
fn classify_stage_number() {
    assert!(matches!(parse_text("[1]"), TextNode::Stage(1)));
    assert!(matches!(parse_text("[123]"), TextNode::Stage(123)));
    assert!(matches!(parse_text("[123] trailing"), TextNode::Stage(123)));
}

#[test]
fn classify_topic() {
    match parse_text("[Bounty Hunt]") {
        TextNode::Topic(t) => assert_eq!(t, "Bounty Hunt"),
        other => panic!("expected a topic, got {:?}", other),
    }
    match parse_text("[12x]") {
        TextNode::Topic(t) => assert_eq!(t, "12x"),
        other => panic!("expected a topic, got {:?}", other),
    }
}

#[test]
fn classify_content() {
    match parse_text("Hello") {
        TextNode::Content(t) => assert_eq!(t, "Hello"),
        other => panic!("expected content, got {:?}", other),
    }
    // An empty bracket pair carries no stage digits and no topic characters.
    match parse_text("[]") {
        TextNode::Content(t) => assert_eq!(t, "[]"),
        other => panic!("expected content, got {:?}", other),
    }
}

#[test]
fn classify_oversized_stage_as_topic() {
    // A digit run too large for a stage number still reads as a topic.
    match parse_text("[99999999999]") {
        TextNode::Topic(t) => assert_eq!(t, "99999999999"),
        other => panic!("expected a topic, got {:?}", other),
    }
}

#[test]
fn classify_scenario_fragments() {
    let raw = "[start]\r\n[1]\r\nHello\r\n[end]";
    let nodes: Vec<TextNode> = raw.split("\r\n").filter(|f| !f.is_empty()).map(parse_text).collect();
    assert_eq!(nodes.len(), 4);
    assert!(matches!(nodes[0], TextNode::Start));
    assert!(matches!(nodes[1], TextNode::Stage(1)));
    match &nodes[2] {
        TextNode::Content(t) => assert_eq!(t, "Hello"),
        other => panic!("expected content, got {:?}", other),
    }
    assert!(matches!(nodes[3], TextNode::End));
}

#[test]
fn delimited_text_splits_topic() {
    assert_eq!(delimited_text("[abc]rest"), Some(("rest", "abc")));
    assert_eq!(delimited_text("[]rest"), None);
    assert_eq!(delimited_text("abc"), None);
}

#[test]
fn delimited_digit_splits_digits() {
    assert_eq!(delimited_digit("[12]rest"), Some(("rest", "12")));
    assert_eq!(delimited_digit("[]x"), Some(("x", "")));
    assert_eq!(delimited_digit("[12a]"), None);
}

#[test]
fn asset_type_tags_round_trip() {
    let tags = [
        "MATERIAL",
        "ANIMATION",
        "MESH",
        "IMAGE",
        "TEXT",
        "BINARY",
        "TEXTURE",
        "FONT",
        "EFFECT",
        "MUSIC",
        "SOUND",
        "mesh",
        "MAPOBJECT",
        "TERRAIN_REGION",
        "WORLDMAP",
    ];
    for tag in tags {
        let t = AssetType::try_from_tag(tag).unwrap();
        assert_eq!(t.tag(), tag);
    }
    assert_eq!(AssetType::Auth.tag(), "pcauth");
}

#[test]
fn asset_type_unknown_tag_fails() {
    match AssetType::try_from_tag("GADGET") {
        Err(regnum_assets::errors::AssetErrors::UnknownAssetTypeError(t)) => {
            assert_eq!(t, "GADGET")
        },
        other => panic!("expected an unknown asset type error, got {:?}", other),
    }
    assert!(AssetType::try_from_tag("pcauth").is_err());
}
